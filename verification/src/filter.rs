//! The filter and pagination engine.
//!
//! A query keeps a trace iff its sender is among `from_address` (or that
//! list is empty) and its recipient is among `to_address` (or that list is
//! empty); of the surviving traces the first `after` are skipped and at most
//! `count` are returned, in the order they came in — no reordering, no
//! deduplication.

use vstd::prelude::*;

use crate::types::{models_of, Address, TraceModel, TransactionTrace};

verus! {

/// Whether a trace survives the address filter.
pub open spec fn trace_matches(t: TraceModel, froms: Seq<Address>, tos: Seq<Address>) -> bool {
    &&& (froms.len() == 0 || froms.contains(t.action.from))
    &&& (tos.len() == 0 || tos.contains(t.action.to))
}

/// The subsequence of `s` surviving the address filter, in order.
pub open spec fn filter_matching(
    s: Seq<TraceModel>,
    froms: Seq<Address>,
    tos: Seq<Address>,
) -> Seq<TraceModel>
    decreases s.len(),
{
    if s.len() == 0 {
        Seq::empty()
    } else {
        let rest = filter_matching(s.drop_last(), froms, tos);
        if trace_matches(s.last(), froms, tos) {
            rest.push(s.last())
        } else {
            rest
        }
    }
}

/// The page `[after, after + count)` of `s`, clipped to `s`'s length.  An
/// offset at or past the end gives an empty page, as does a zero count.
pub open spec fn paginate(s: Seq<TraceModel>, after: nat, count: nat) -> Seq<TraceModel> {
    if after >= s.len() {
        Seq::empty()
    } else {
        let end = if after + count <= s.len() {
            after + count
        } else {
            s.len()
        };
        s.subrange(after as int, end as int)
    }
}

/// What the engine returns for a flattened range of traces and a query's
/// filter and slice parameters.
pub open spec fn engine_result(
    s: Seq<TraceModel>,
    froms: Seq<Address>,
    tos: Seq<Address>,
    after: nat,
    count: nat,
) -> Seq<TraceModel> {
    paginate(filter_matching(s, froms, tos), after, count)
}

/// Whether `a` is a member of the address list.
fn contains_address(list: &Vec<Address>, a: Address) -> (r: bool)
    ensures
        r == list@.contains(a),
{
    let mut i: usize = 0;
    while i < list.len()
        invariant
            i <= list.len(),
            forall|j: int| 0 <= j < i ==> list@[j] != a,
        decreases list.len() - i,
    {
        if list[i] == a {
            return true;
        }
        i = i + 1;
    }
    false
}

/// Whether a trace survives the address filter.
pub fn matches_filter(
    t: &TransactionTrace,
    from_address: &Vec<Address>,
    to_address: &Vec<Address>,
) -> (r: bool)
    ensures
        r == trace_matches(t@, from_address@, to_address@),
{
    let from_ok = from_address.len() == 0 || contains_address(from_address, t.sender());
    let to_ok = to_address.len() == 0 || contains_address(to_address, t.receiver());
    from_ok && to_ok
}

/// Applies the address filter to `all`, skips the first `after` survivors
/// and returns at most `count` of the rest, in order.
pub fn filter_and_paginate(
    all: &Vec<TransactionTrace>,
    from_address: &Vec<Address>,
    to_address: &Vec<Address>,
    after: u32,
    count: u32,
) -> (r: Vec<TransactionTrace>)
    ensures
        models_of(r@) == engine_result(
            models_of(all@),
            from_address@,
            to_address@,
            after as nat,
            count as nat,
        ),
{
    let ghost whole: Seq<TraceModel> = models_of(all@);
    let mut out: Vec<TransactionTrace> = Vec::new();
    let mut skipped: u32 = 0;
    let mut i: usize = 0;
    while i < all.len()
        invariant
            i <= all.len(),
            whole == models_of(all@),
            skipped as int == vstd::math::min(
                after as int,
                filter_matching(whole.take(i as int), from_address@, to_address@).len() as int,
            ),
            models_of(out@) == paginate(
                filter_matching(whole.take(i as int), from_address@, to_address@),
                after as nat,
                count as nat,
            ),
            out@.len() <= count as int,
        decreases all.len() - i,
    {
        let ghost f = filter_matching(whole.take(i as int), from_address@, to_address@);
        let ghost f2 = filter_matching(whole.take(i as int + 1), from_address@, to_address@);
        proof {
            assert(whole.take(i as int + 1).drop_last() =~= whole.take(i as int));
            assert(whole.take(i as int + 1).last() == all@[i as int]@);
        }
        if matches_filter(&all[i], from_address, to_address) {
            proof {
                assert(f2 == f.push(all@[i as int]@));
            }
            if skipped < after {
                proof {
                    assert(paginate(f2, after as nat, count as nat) =~= Seq::<
                        TraceModel,
                    >::empty());
                }
                skipped = skipped + 1;
            } else if out.len() < count as usize {
                let ghost prev = out@;
                out.push(all[i].clone());
                proof {
                    assert(models_of(prev).len() == prev.len());
                    assert(paginate(f, after as nat, count as nat).len() == prev.len());
                    assert(models_of(out@) =~= models_of(prev).push(all@[i as int]@));
                    assert(paginate(f2, after as nat, count as nat) =~= paginate(
                        f,
                        after as nat,
                        count as nat,
                    ).push(all@[i as int]@));
                }
            } else {
                proof {
                    assert(paginate(f2, after as nat, count as nat) =~= paginate(
                        f,
                        after as nat,
                        count as nat,
                    ));
                }
            }
        } else {
            proof {
                assert(f2 == f);
            }
        }
        i = i + 1;
    }
    proof {
        assert(whole.take(all@.len() as int) =~= whole);
    }
    out
}

/// With both address lists empty the filter keeps every trace, in order.
pub proof fn lemma_empty_filter_keeps_all(s: Seq<TraceModel>, froms: Seq<Address>, tos: Seq<
    Address,
>)
    requires
        froms.len() == 0,
        tos.len() == 0,
    ensures
        filter_matching(s, froms, tos) == s,
    decreases s.len(),
{
    if s.len() == 0 {
        assert(filter_matching(s, froms, tos) =~= s);
    } else {
        lemma_empty_filter_keeps_all(s.drop_last(), froms, tos);
        assert(filter_matching(s, froms, tos) =~= s);
    }
}

/// The filter never invents, reorders or duplicates: its result is what a
/// pass over `s` keeps, so every kept trace occurs in `s` and matches.
pub proof fn lemma_filter_members_match(
    s: Seq<TraceModel>,
    froms: Seq<Address>,
    tos: Seq<Address>,
)
    ensures
        forall|i: int| 0 <= i < filter_matching(s, froms, tos).len() ==> {
            &&& trace_matches(#[trigger] filter_matching(s, froms, tos)[i], froms, tos)
            &&& s.contains(filter_matching(s, froms, tos)[i])
        },
    decreases s.len(),
{
    if s.len() > 0 {
        lemma_filter_members_match(s.drop_last(), froms, tos);
        let rest = filter_matching(s.drop_last(), froms, tos);
        let f = filter_matching(s, froms, tos);
        assert forall|i: int| 0 <= i < f.len() implies {
            &&& trace_matches(#[trigger] f[i], froms, tos)
            &&& s.contains(f[i])
        } by {
            if i < rest.len() {
                assert(f[i] == rest[i]);
                assert(s.drop_last().contains(rest[i]));
                let j = choose|j: int| 0 <= j < s.drop_last().len() && s.drop_last()[j] == rest[i];
                assert(s[j] == rest[i]);
            } else {
                assert(f[i] == s.last());
                assert(s[s.len() - 1] == s.last());
            }
        }
    }
}

/// The pagination law: a full filtered sequence of `N` traces, sliced with
/// offset `a` and limit `c`, yields exactly `min(max(N - a, 0), c)` traces,
/// and they are the slice `[a, a + c)` of the full sequence; an offset at or
/// past `N` yields an empty result.
pub proof fn lemma_pagination_law(s: Seq<TraceModel>, a: nat, c: nat)
    ensures
        paginate(s, a, c).len() == vstd::math::min(
            vstd::math::max(s.len() - a, 0),
            c as int,
        ),
        forall|i: int| 0 <= i < paginate(s, a, c).len() ==> #[trigger] paginate(s, a, c)[i]
            == s[a + i],
        a >= s.len() ==> paginate(s, a, c) == Seq::<TraceModel>::empty(),
{
}

} // verus!
