//! The cache store: a mapping from block height to that block's traces and
//! their expiration deadline, held in ascending height order.
//!
//! Entries are created on a request's first miss for a height and destroyed
//! by the expiration sweep once their deadline has passed.  The store is
//! kept as a vector sorted strictly by height, so a range scan is a walk of
//! a contiguous slice in ascending height order.

use vstd::prelude::*;
use vstd::pervasive::VecAdditionalExecFns;

use crate::types::{models_of, TraceModel, TransactionTrace};

verus! {

/// One cached block: its traces, in execution order, and the instant (in
/// service ticks) at which the entry becomes eligible for removal.
pub struct CacheBlock {
    pub height: u32,
    pub expiration: u64,
    pub traces: Vec<TransactionTrace>,
}

/// The model of a cached block.
#[verifier::ext_equal]
pub ghost struct CacheBlockModel {
    pub height: u32,
    pub expiration: u64,
    pub traces: Seq<TraceModel>,
}

impl View for CacheBlock {
    type V = CacheBlockModel;

    open spec fn view(&self) -> CacheBlockModel {
        CacheBlockModel {
            height: self.height,
            expiration: self.expiration,
            traces: models_of(self.traces@),
        }
    }
}

/// The models of a sequence of cached blocks, in order.
pub open spec fn block_models(s: Seq<CacheBlock>) -> Seq<CacheBlockModel> {
    Seq::new(s.len(), |i: int| s[i]@)
}

/// Whether the blocks are sorted strictly by height (so heights are unique).
pub open spec fn heights_sorted(s: Seq<CacheBlockModel>) -> bool {
    forall|i: int, j: int|
        0 <= i < j < s.len() ==> (#[trigger] s[i].height) < (#[trigger] s[j].height)
}

/// Whether every trace of every block carries that block's height as its
/// block number.
pub open spec fn blocks_annotated(s: Seq<CacheBlockModel>) -> bool {
    forall|i: int, k: int|
        0 <= i < s.len() && 0 <= k < s[i].traces.len() ==> (#[trigger] s[i].traces[k]).block_number
            == s[i].height
}

/// Whether some block of `s` holds the given height.
pub open spec fn has_height_in(s: Seq<CacheBlockModel>, h: u32) -> bool {
    exists|i: int| 0 <= i < s.len() && (#[trigger] s[i]).height == h
}

/// The position of the block of `s` holding the given height.
pub open spec fn index_in(s: Seq<CacheBlockModel>, h: u32) -> int {
    choose|i: int| 0 <= i < s.len() && (#[trigger] s[i]).height == h
}

/// The block of `s` holding the given height.
pub open spec fn entry_in(s: Seq<CacheBlockModel>, h: u32) -> CacheBlockModel {
    s[index_in(s, h)]
}

/// In a sorted block sequence, position `i` is the position its own height
/// is found at.
pub proof fn lemma_entry_at(s: Seq<CacheBlockModel>, i: int)
    requires
        heights_sorted(s),
        0 <= i < s.len(),
    ensures
        has_height_in(s, s[i].height),
        index_in(s, s[i].height) == i,
        entry_in(s, s[i].height) == s[i],
{
    assert(has_height_in(s, s[i].height));
    let j = index_in(s, s[i].height);
    if j < i {
        assert(s[j].height < s[i].height);
    } else if j > i {
        assert(s[i].height < s[j].height);
    }
}

/// Every trace of every block in `[from, to]`, flattened in ascending height
/// order, each block's traces in their own order.
pub open spec fn traces_in_range(s: Seq<CacheBlockModel>, from: u32, to: u32) -> Seq<TraceModel>
    decreases s.len(),
{
    if s.len() == 0 {
        Seq::empty()
    } else {
        traces_in_range(s.drop_last(), from, to) + (if from <= s.last().height && s.last().height
            <= to {
            s.last().traces
        } else {
            Seq::empty()
        })
    }
}

/// A range scan of a well-formed store lists traces in ascending height
/// order: every flattened trace belongs to a block of the range, and block
/// numbers never decrease along the result.  Within one block the traces
/// keep the order they were produced in, by construction of the scan.
pub proof fn lemma_range_scan_ordered(s: Seq<CacheBlockModel>, from: u32, to: u32)
    requires
        heights_sorted(s),
        blocks_annotated(s),
    ensures
        forall|i: int|
            0 <= i < traces_in_range(s, from, to).len() ==> from <= (#[trigger] traces_in_range(
                s,
                from,
                to,
            )[i]).block_number <= to,
        forall|i: int|
            0 <= i < traces_in_range(s, from, to).len() ==> exists|j: int|
                0 <= j < s.len() && (#[trigger] traces_in_range(s, from, to)[i]).block_number
                    == s[j].height,
        forall|i: int, k: int|
            0 <= i <= k < traces_in_range(s, from, to).len() ==> (#[trigger] traces_in_range(
                s,
                from,
                to,
            )[i]).block_number <= (#[trigger] traces_in_range(s, from, to)[k]).block_number,
    decreases s.len(),
{
    if s.len() > 0 {
        let sp = s.drop_last();
        lemma_range_scan_ordered(sp, from, to);
        let tp = traces_in_range(sp, from, to);
        let t = traces_in_range(s, from, to);
        assert forall|i: int| 0 <= i < t.len() implies {
            &&& from <= (#[trigger] t[i]).block_number <= to
            &&& exists|j: int| 0 <= j < s.len() && t[i].block_number == (#[trigger] s[j]).height
        } by {
            if i < tp.len() {
                assert(t[i] == tp[i]);
                let j = choose|j: int|
                    0 <= j < sp.len() && (#[trigger] tp[i]).block_number == sp[j].height;
                assert(s[j].height == sp[j].height);
            } else {
                assert(t[i] == s.last().traces[i - tp.len()]);
                assert(t[i].block_number == s.last().height);
                assert(s[s.len() - 1].height == s.last().height);
            }
        }
        assert forall|i: int, k: int| 0 <= i <= k < t.len() implies (#[trigger] t[i]).block_number
            <= (#[trigger] t[k]).block_number by {
            if k < tp.len() {
                assert(t[i] == tp[i] && t[k] == tp[k]);
            } else if i >= tp.len() {
                assert(t[i].block_number == s.last().height);
                assert(t[k].block_number == s.last().height);
            } else {
                assert(t[i] == tp[i]);
                assert(t[k].block_number == s.last().height);
                let j = choose|j: int|
                    0 <= j < sp.len() && (#[trigger] tp[i]).block_number == sp[j].height;
                assert(sp[j].height == s[j].height);
                assert(s[j].height <= s[s.len() - 1].height);
            }
        }
    }
}

/// The in-memory store of cached blocks.
pub struct CacheStore {
    pub entries: Vec<CacheBlock>,
}

impl View for CacheStore {
    type V = Seq<CacheBlockModel>;

    open spec fn view(&self) -> Seq<CacheBlockModel> {
        block_models(self.entries@)
    }
}

impl CacheStore {
    /// The store's invariant: entries sorted strictly by height, every trace
    /// annotated with its block's height.
    pub open spec fn wf(self) -> bool {
        &&& heights_sorted(self@)
        &&& blocks_annotated(self@)
    }

    /// Whether some entry holds the given height.
    pub open spec fn has_height(self, h: u32) -> bool {
        has_height_in(self@, h)
    }

    /// The entry holding the given height.
    pub open spec fn entry(self, h: u32) -> CacheBlockModel {
        entry_in(self@, h)
    }

    /// An empty store.
    pub fn new() -> (r: CacheStore)
        ensures
            r.wf(),
            r@.len() == 0,
            forall|h: u32| !r.has_height(h),
    {
        CacheStore { entries: Vec::new() }
    }

    /// The position of the entry for `h`, if the store has one.
    pub fn position(&self, h: u32) -> (r: Option<usize>)
        ensures
            match r {
                Some(i) => i < self@.len() && self@[i as int].height == h,
                None => !self.has_height(h),
            },
    {
        let mut i: usize = 0;
        while i < self.entries.len()
            invariant
                i <= self.entries.len(),
                forall|j: int| 0 <= j < i ==> (#[trigger] self@[j]).height != h,
            decreases self.entries.len() - i,
        {
            if self.entries[i].height == h {
                return Some(i);
            }
            i = i + 1;
        }
        None
    }

    /// Whether the store has an entry for `h`.
    pub fn contains(&self, h: u32) -> (r: bool)
        ensures
            r == self.has_height(h),
    {
        match self.position(h) {
            Some(_) => true,
            None => false,
        }
    }

    /// The entry for `h`, if the store has one.
    pub fn get(&self, h: u32) -> (r: Option<&CacheBlock>)
        requires
            self.wf(),
        ensures
            match r {
                Some(e) => self.has_height(h) && e@ == self.entry(h),
                None => !self.has_height(h),
            },
    {
        match self.position(h) {
            Some(i) => {
                proof {
                    lemma_entry_at(self@, i as int);
                }
                Some(&self.entries[i])
            },
            None => None,
        }
    }

    /// The position of the first entry whose height is not below `height`.
    fn lower_bound(&self, height: u32) -> (r: usize)
        ensures
            r <= self@.len(),
            forall|j: int| 0 <= j < r ==> (#[trigger] self@[j]).height < height,
            r < self@.len() ==> self@[r as int].height >= height,
    {
        let mut i: usize = 0;
        while i < self.entries.len() && self.entries[i].height < height
            invariant
                i <= self.entries.len(),
                forall|j: int| 0 <= j < i ==> (#[trigger] self@[j]).height < height,
            decreases self.entries.len() - i,
        {
            i = i + 1;
        }
        i
    }

    /// Stores `traces` for `height` with the given expiration, overwriting
    /// any entry already there.  Every other entry is untouched.
    pub fn put(&mut self, height: u32, expiration: u64, traces: Vec<TransactionTrace>)
        requires
            old(self).wf(),
            forall|k: int| 0 <= k < traces@.len() ==> (#[trigger] traces@[k])@.block_number
                == height,
        ensures
            final(self).wf(),
            final(self).has_height(height),
            final(self).entry(height) == (CacheBlockModel {
                height,
                expiration,
                traces: models_of(traces@),
            }),
            forall|g: u32| g != height ==> final(self).has_height(g) == old(self).has_height(g),
            forall|g: u32|
                g != height && final(self).has_height(g) ==> final(self).entry(g) == old(
                    self,
                ).entry(g),
    {
        let ghost b = CacheBlockModel { height, expiration, traces: models_of(traces@) };
        proof {
            assert forall|k: int| 0 <= k < b.traces.len() implies (#[trigger] b.traces[k]).block_number
                == b.height by {
                assert(b.traces[k] == traces@[k]@);
            }
        }
        let i = self.lower_bound(height);
        let ghost pre = self@;
        let block = CacheBlock { height, expiration, traces };
        if i < self.entries.len() && self.entries[i].height == height {
            self.entries.set(i, block);
            proof {
                assert(self@ =~= pre.update(i as int, b));
                lemma_update_shape(pre, self@, i as int, b);
            }
        } else {
            proof {
                assert(forall|j: int| i <= j < pre.len() ==> height < (#[trigger] pre[j]).height);
            }
            self.entries.insert(i, block);
            proof {
                assert(self@ =~= pre.insert(i as int, b));
                lemma_insert_shape(pre, self@, i as int, b);
            }
        }
    }

    /// Copies every trace of every cached block in `[from, to]`, flattened
    /// in ascending height order, each block's traces in their own order.
    pub fn collect_range(&self, from: u32, to: u32) -> (r: Vec<TransactionTrace>)
        ensures
            models_of(r@) == traces_in_range(self@, from, to),
    {
        let mut out: Vec<TransactionTrace> = Vec::new();
        let mut i: usize = 0;
        while i < self.entries.len()
            invariant
                i <= self.entries.len(),
                models_of(out@) == traces_in_range(self@.take(i as int), from, to),
            decreases self.entries.len() - i,
        {
            proof {
                assert(self@.take(i as int + 1).drop_last() =~= self@.take(i as int));
                assert(self@.take(i as int + 1).last() == self@[i as int]);
            }
            let e = &self.entries[i];
            if from <= e.height && e.height <= to {
                let ghost before = traces_in_range(self@.take(i as int), from, to);
                let mut k: usize = 0;
                while k < e.traces.len()
                    invariant
                        k <= e.traces.len(),
                        i < self.entries.len(),
                        e == &self.entries@[i as int],
                        models_of(out@) == before + self@[i as int].traces.take(k as int),
                    decreases e.traces.len() - k,
                {
                    let ghost prev = out@;
                    out.push(e.traces[k].clone());
                    k = k + 1;
                    proof {
                        assert(models_of(out@) =~= models_of(prev).push(e.traces@[k - 1]@));
                        assert(self@[i as int].traces.take(k as int) =~= self@[i as int].traces.take(
                            k as int - 1,
                        ).push(e.traces@[k - 1]@));
                        assert(models_of(out@) =~= before + self@[i as int].traces.take(k as int));
                    }
                }
                proof {
                    assert(self@[i as int].traces.take(e.traces@.len() as int) =~= self@[
                        i as int
                    ].traces);
                    assert(models_of(out@) =~= traces_in_range(self@.take(i as int + 1), from, to));
                }
            } else {
                proof {
                    assert(models_of(out@) =~= traces_in_range(self@.take(i as int + 1), from, to));
                }
            }
            i = i + 1;
        }
        proof {
            assert(self@.take(self.entries@.len() as int) =~= self@);
        }
        out
    }

    /// The expiration sweep over one batch of heights: each batch height
    /// whose entry's deadline has passed is removed from the store; entries
    /// checked before their deadline, and heights outside the batch, are
    /// left exactly as they were.
    pub fn sweep(&mut self, heights: &Vec<u32>, now: u64)
        requires
            old(self).wf(),
        ensures
            final(self).wf(),
            forall|g: u32| final(self).has_height(g) == (old(self).has_height(g) && !(
            heights@.contains(g) && old(self).entry(g).expiration <= now)),
            forall|g: u32|
                final(self).has_height(g) ==> final(self).entry(g) == old(self).entry(g),
    {
        let mut idx: usize = 0;
        while idx < heights.len()
            invariant
                idx <= heights.len(),
                self.wf(),
                forall|g: u32| self.has_height(g) == (old(self).has_height(g) && !(
                heights@.take(idx as int).contains(g) && old(self).entry(g).expiration <= now)),
                forall|g: u32| self.has_height(g) ==> self.entry(g) == old(self).entry(g),
            decreases heights.len() - idx,
        {
            let h = heights[idx];
            let ghost pre = *self;
            let mut expired = false;
            match self.position(h) {
                Some(i) => {
                    proof {
                        lemma_entry_at(self@, i as int);
                    }
                    if self.entries[i].expiration <= now {
                        expired = true;
                    }
                },
                None => {},
            }
            if expired {
                self.remove_height(h);
            }
            idx = idx + 1;
            proof {
                assert(heights@.take(idx as int) =~= heights@.take(idx as int - 1).push(
                    heights@[idx as int - 1],
                ));
                assert forall|g: u32|
                    heights@.take(idx as int).contains(g) == (heights@.take(idx as int - 1).contains(
                        g,
                    ) || g == h) by {
                    if heights@.take(idx as int).contains(g) {
                        let j = choose|j: int|
                            0 <= j < idx && #[trigger] heights@.take(idx as int)[j] == g;
                        if j < idx - 1 {
                            assert(heights@.take(idx as int - 1)[j] == g);
                        }
                    }
                    if heights@.take(idx as int - 1).contains(g) {
                        let j = choose|j: int|
                            0 <= j < idx - 1 && #[trigger] heights@.take(idx as int - 1)[j] == g;
                        assert(heights@.take(idx as int)[j] == g);
                    }
                    if g == h {
                        assert(heights@.take(idx as int)[idx - 1] == g);
                    }
                }
            }
        }
        proof {
            assert(heights@.take(heights@.len() as int) =~= heights@);
        }
    }

    /// Removes the entry for `h`, if any.  Every other entry is untouched.
    pub fn remove_height(&mut self, h: u32)
        requires
            old(self).wf(),
        ensures
            final(self).wf(),
            !final(self).has_height(h),
            forall|g: u32| g != h ==> final(self).has_height(g) == old(self).has_height(g),
            forall|g: u32|
                g != h && final(self).has_height(g) ==> final(self).entry(g) == old(self).entry(g),
    {
        let ghost pre = self@;
        match self.position(h) {
            Some(i) => {
                self.entries.remove(i);
                proof {
                    assert(self@ =~= pre.remove(i as int));
                    lemma_remove_shape(pre, self@, i as int);
                }
            },
            None => {},
        }
    }
}

/// What replacing the block at position `i` by one of the same height does
/// to a sorted block sequence: that height now maps to the new block, every
/// other height is untouched.
proof fn lemma_update_shape(
    pre: Seq<CacheBlockModel>,
    post: Seq<CacheBlockModel>,
    i: int,
    b: CacheBlockModel,
)
    requires
        heights_sorted(pre),
        blocks_annotated(pre),
        0 <= i < pre.len(),
        pre[i].height == b.height,
        forall|k: int| 0 <= k < b.traces.len() ==> (#[trigger] b.traces[k]).block_number
            == b.height,
        post == pre.update(i, b),
    ensures
        heights_sorted(post),
        blocks_annotated(post),
        has_height_in(post, b.height),
        entry_in(post, b.height) == b,
        forall|g: u32| g != b.height ==> has_height_in(post, g) == has_height_in(pre, g),
        forall|g: u32|
            g != b.height && has_height_in(post, g) ==> entry_in(post, g) == entry_in(pre, g),
{
    assert forall|p: int, q: int| 0 <= p < q < post.len() implies (#[trigger] post[p]).height < (
    #[trigger] post[q]).height by {
        assert(pre[p].height < pre[q].height);
    }
    lemma_entry_at(post, i);
    assert forall|g: u32| g != b.height implies has_height_in(post, g) == has_height_in(
        pre,
        g,
    ) by {
        if has_height_in(pre, g) {
            let j = index_in(pre, g);
            assert(post[j].height == g);
        }
        if has_height_in(post, g) {
            let j = index_in(post, g);
            assert(pre[j].height == g);
        }
    }
    assert forall|g: u32| g != b.height && has_height_in(post, g) implies entry_in(post, g)
        == entry_in(pre, g) by {
        let j = index_in(post, g);
        assert(post[j].height == g);
        assert(pre[j].height == g);
        lemma_entry_at(pre, j);
        assert(post[j] == pre[j]);
    }
}

/// What inserting a block between the heights below and above it does to a
/// sorted block sequence.
proof fn lemma_insert_shape(
    pre: Seq<CacheBlockModel>,
    post: Seq<CacheBlockModel>,
    i: int,
    b: CacheBlockModel,
)
    requires
        heights_sorted(pre),
        blocks_annotated(pre),
        0 <= i <= pre.len(),
        forall|j: int| 0 <= j < i ==> (#[trigger] pre[j]).height < b.height,
        forall|j: int| i <= j < pre.len() ==> b.height < (#[trigger] pre[j]).height,
        forall|k: int| 0 <= k < b.traces.len() ==> (#[trigger] b.traces[k]).block_number
            == b.height,
        post == pre.insert(i, b),
    ensures
        heights_sorted(post),
        blocks_annotated(post),
        has_height_in(post, b.height),
        entry_in(post, b.height) == b,
        forall|g: u32| g != b.height ==> has_height_in(post, g) == has_height_in(pre, g),
        forall|g: u32|
            g != b.height && has_height_in(post, g) ==> entry_in(post, g) == entry_in(pre, g),
{
    assert forall|p: int, q: int| 0 <= p < q < post.len() implies (#[trigger] post[p]).height < (
    #[trigger] post[q]).height by {
        if q < i {
            assert(post[p] == pre[p] && post[q] == pre[q]);
        } else if p > i {
            assert(post[p] == pre[p - 1] && post[q] == pre[q - 1]);
        } else if p < i && q == i {
            assert(post[p] == pre[p]);
        } else if p == i && q > i {
            assert(post[q] == pre[q - 1]);
        } else if p < i && q > i {
            assert(post[p] == pre[p] && post[q] == pre[q - 1]);
            assert(pre[p].height < b.height);
            assert(b.height < pre[q - 1].height);
        }
    }
    assert forall|j: int, k: int|
        0 <= j < post.len() && 0 <= k < post[j].traces.len() implies (#[trigger] post[j].traces[k]).block_number
        == post[j].height by {
        if j < i {
            assert(post[j] == pre[j]);
        } else if j > i {
            assert(post[j] == pre[j - 1]);
        }
    }
    lemma_entry_at(post, i);
    assert forall|g: u32| g != b.height implies has_height_in(post, g) == has_height_in(
        pre,
        g,
    ) by {
        if has_height_in(pre, g) {
            let j = index_in(pre, g);
            if j < i {
                assert(post[j].height == g);
            } else {
                assert(post[j + 1].height == g);
            }
        }
        if has_height_in(post, g) {
            let j = index_in(post, g);
            if j < i {
                assert(pre[j].height == g);
            } else {
                assert(pre[j - 1].height == g);
            }
        }
    }
    assert forall|g: u32| g != b.height && has_height_in(post, g) implies entry_in(post, g)
        == entry_in(pre, g) by {
        let j = index_in(post, g);
        assert(post[j].height == g);
        if j < i {
            assert(pre[j].height == g);
            lemma_entry_at(pre, j);
            assert(post[j] == pre[j]);
        } else {
            assert(pre[j - 1].height == g);
            lemma_entry_at(pre, j - 1);
            assert(post[j] == pre[j - 1]);
        }
    }
}

/// What removing the block at position `i` does to a sorted block sequence:
/// its height is gone, every other height is untouched.
proof fn lemma_remove_shape(pre: Seq<CacheBlockModel>, post: Seq<CacheBlockModel>, i: int)
    requires
        heights_sorted(pre),
        blocks_annotated(pre),
        0 <= i < pre.len(),
        post == pre.remove(i),
    ensures
        heights_sorted(post),
        blocks_annotated(post),
        !has_height_in(post, pre[i].height),
        forall|g: u32| g != pre[i].height ==> has_height_in(post, g) == has_height_in(pre, g),
        forall|g: u32|
            g != pre[i].height && has_height_in(post, g) ==> entry_in(post, g) == entry_in(pre, g),
{
    assert forall|p: int, q: int| 0 <= p < q < post.len() implies (#[trigger] post[p]).height < (
    #[trigger] post[q]).height by {
        if p < i && q >= i {
            assert(post[p] == pre[p] && post[q] == pre[q + 1]);
        } else if p >= i {
            assert(post[p] == pre[p + 1] && post[q] == pre[q + 1]);
        }
    }
    assert forall|j: int, k: int|
        0 <= j < post.len() && 0 <= k < post[j].traces.len() implies (#[trigger] post[j].traces[k]).block_number
        == post[j].height by {
        if j < i {
            assert(post[j] == pre[j]);
        } else {
            assert(post[j] == pre[j + 1]);
        }
    }
    assert forall|j: int| 0 <= j < post.len() implies (#[trigger] post[j]).height
        != pre[i].height by {
        if j < i {
            assert(post[j] == pre[j]);
            assert(pre[j].height < pre[i].height);
        } else {
            assert(post[j] == pre[j + 1]);
            assert(pre[i].height < pre[j + 1].height);
        }
    }
    assert forall|g: u32| g != pre[i].height implies has_height_in(post, g) == has_height_in(
        pre,
        g,
    ) by {
        if has_height_in(pre, g) {
            let j = index_in(pre, g);
            if j < i {
                assert(post[j].height == g);
            } else {
                assert(post[j - 1].height == g);
            }
        }
        if has_height_in(post, g) {
            let j = index_in(post, g);
            if j < i {
                assert(pre[j].height == g);
            } else {
                assert(pre[j + 1].height == g);
            }
        }
    }
    assert forall|g: u32| g != pre[i].height && has_height_in(post, g) implies entry_in(post, g)
        == entry_in(pre, g) by {
        let j = index_in(post, g);
        assert(post[j].height == g);
        if j < i {
            assert(pre[j].height == g);
            lemma_entry_at(pre, j);
            assert(post[j] == pre[j]);
        } else {
            assert(pre[j + 1].height == g);
            lemma_entry_at(pre, j + 1);
            assert(post[j] == pre[j + 1]);
        }
    }
}

} // verus!
