//! The annual inflation schedule and its validity rule.
//!
//! A schedule names a maximum, an ideal and a minimum annual inflation
//! target, each in parts per billion.  It is well formed exactly when the
//! three are strictly ordered: a schedule that is not is rejected before it
//! is stored.

use vstd::prelude::*;

verus! {

/// Annual inflation targets, each in parts per billion.
#[derive(Clone, Copy, PartialEq, Eq, Structural, Debug)]
pub struct InflationSchedule {
    pub max: u32,
    pub min: u32,
    pub ideal: u32,
}

/// Why a schedule update is refused.
#[derive(Clone, Copy, PartialEq, Eq, Structural, Debug)]
pub enum ScheduleError {
    /// The schedule is not formed correctly: its maximum does not exceed
    /// its ideal, or its ideal does not exceed its minimum.
    InvalidSchedule,
}

impl InflationSchedule {
    /// Whether the targets are strictly ordered.
    pub open spec fn spec_valid(self) -> bool {
        self.max > self.ideal && self.ideal > self.min
    }

    /// A schedule is valid iff its maximum exceeds its ideal and its ideal
    /// exceeds its minimum.
    pub fn valid(&self) -> (r: bool)
        ensures
            r == self.spec_valid(),
    {
        self.max > self.ideal && self.ideal > self.min
    }

    /// The decision behind a schedule update: a valid schedule is accepted
    /// as the new one, an invalid schedule is refused, if and only if.
    pub fn check_update(&self) -> (r: Result<InflationSchedule, ScheduleError>)
        ensures
            match r {
                Ok(s) => self.spec_valid() && s == *self,
                Err(e) => !self.spec_valid() && e == ScheduleError::InvalidSchedule,
            },
    {
        if self.valid() {
            Ok(*self)
        } else {
            Err(ScheduleError::InvalidSchedule)
        }
    }
}

} // verus!
