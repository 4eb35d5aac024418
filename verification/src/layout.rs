//! Streaming layout: orders the blocks of a function depth-first from the
//! entry block, so that a block follows one of its predecessors, and records
//! the boundaries of code segments of at most 1024 instructions.
use vstd::prelude::*;
use crate::wasmir::{BasicBlock, BlockId, Terminator, WasmIR};
use crate::cfg::{depth_first_order, follows_earlier, reachable, traversal_correct, traverse, Traversal};
use crate::optimize::same_header;
use crate::backend::BackendError;

verus! {

/// Segment size limit, in instructions (terminators counted).
pub const SEGMENT_LIMIT: usize = 1024;

/// The first position at or after `i` whose block number is `id`.
pub open spec fn find_from(ids: Seq<usize>, id: usize, i: int) -> Option<int>
    decreases ids.len() - i,
{
    if i < 0 || i >= ids.len() {
        None
    } else if ids[i] == id {
        Some(i)
    } else {
        find_from(ids, id, i + 1)
    }
}

proof fn lemma_find_from(ids: Seq<usize>, id: usize, i: int)
    requires
        0 <= i,
    ensures
        find_from(ids, id, i) matches Some(p) ==> i <= p < ids.len() && ids[p] == id && (forall|
            q: int,
        | i <= q < p ==> ids[q] != id),
        find_from(ids, id, i) is None ==> forall|q: int| i <= q < ids.len() ==> ids[q] != id,
    decreases ids.len() - i,
{
    if i < ids.len() && ids[i] != id {
        lemma_find_from(ids, id, i + 1);
    }
}

/// The block numbers of the blocks, by position.
pub open spec fn block_ids(bs: Seq<BasicBlock>) -> Seq<usize> {
    bs.map_values(|b: BasicBlock| b.id.0)
}

/// Positions of the blocks placed by the layout for the first `k` entries
/// of a visiting order: for each entry, the first block with that number.
pub open spec fn layout_positions(order: Seq<usize>, ids: Seq<usize>, k: int) -> Seq<int>
    decreases k,
{
    if k <= 0 {
        Seq::empty()
    } else {
        let prev = layout_positions(order, ids, k - 1);
        match find_from(ids, order[k - 1], 0) {
            Some(p) => prev.push(p),
            None => prev,
        }
    }
}

/// Every position placed by the layout names an existing block.
pub proof fn lemma_layout_positions_in_range(order: Seq<usize>, ids: Seq<usize>, k: int)
    ensures
        forall|t: int|
            0 <= t < layout_positions(order, ids, k).len() ==> 0 <= #[trigger] layout_positions(
                order,
                ids,
                k,
            )[t] < ids.len(),
    decreases k,
{
    if k > 0 {
        lemma_layout_positions_in_range(order, ids, k - 1);
        lemma_find_from(ids, order[k - 1], 0);
        let prev = layout_positions(order, ids, k - 1);
        let cur = layout_positions(order, ids, k);
        assert forall|t: int| 0 <= t < cur.len() implies 0 <= #[trigger] cur[t] < ids.len() by {
            if t < prev.len() {
                assert(cur[t] == prev[t]);
            }
        }
    }
}

/// `ord` is a depth-first visiting order of `bs`: each reachable position
/// once, nothing else, the entry first, and every later block a successor
/// of a block placed before it.
pub open spec fn dfs_order(bs: Seq<BasicBlock>, ord: Seq<usize>) -> bool {
    &&& ord.no_duplicates()
    &&& forall|k: int| 0 <= k < ord.len() ==> ord[k] < bs.len() && reachable(bs, ord[k])
    &&& forall|x: usize| x < bs.len() && reachable(bs, x) ==> ord.contains(x)
    &&& bs.len() > 0 ==> ord.len() > 0 && ord[0] == 0
    &&& forall|k: int| 1 <= k < ord.len() ==> #[trigger] follows_earlier(bs, ord, k)
}

/// `nb` is `ob` laid out by the visiting order `ord`.
pub open spec fn laid_out_by(ob: Seq<BasicBlock>, nb: Seq<BasicBlock>, ord: Seq<usize>) -> bool {
    let pos = layout_positions(ord, block_ids(ob), ord.len() as int);
    &&& dfs_order(ob, ord)
    &&& nb.len() == pos.len()
    &&& forall|t: int| 0 <= t < pos.len() ==> #[trigger] nb[t] == ob[pos[t]]
}

/// `n` is `o` with its blocks laid out in the order of the depth-first
/// traversal from the entry block.
pub open spec fn layout_applied(o: WasmIR, n: WasmIR) -> bool {
    &&& same_header(o, n)
    &&& n.locals == o.locals
    &&& laid_out_by(o.basic_blocks@, n.basic_blocks@, depth_first_order(o.basic_blocks@))
}

/// Scan of block sizes for segment boundaries over the first `k` sizes:
/// the boundaries found so far and the size of the open segment. A
/// boundary is recorded when a block would take the open segment past the
/// limit.
pub open spec fn segment_scan(sizes: Seq<int>, k: int) -> (Seq<int>, int)
    decreases k,
{
    if k <= 0 {
        (Seq::empty(), 0)
    } else {
        let (b, off) = segment_scan(sizes, k - 1);
        let sz = sizes[k - 1];
        if off + sz > SEGMENT_LIMIT {
            (b.push(off), sz)
        } else {
            (b, off + sz)
        }
    }
}

/// Size of each block: its instructions plus its terminator.
pub open spec fn block_sizes(bs: Seq<BasicBlock>) -> Seq<int> {
    bs.map_values(|b: BasicBlock| (b.instructions@.len() + 1) as int)
}

/// The boundaries recorded after scanning a block list, starting from the
/// boundaries `prev` recorded before: those of the scan are appended, then
/// the size of the last segment whenever the recorded list is not empty
/// (so also when only an earlier scan found a boundary).
pub open spec fn segments_recorded(prev: Seq<int>, bs: Seq<BasicBlock>) -> Seq<int> {
    let (b, off) = segment_scan(block_sizes(bs), bs.len() as int);
    if prev.len() + b.len() > 0 {
        (prev + b).push(off)
    } else {
        prev + b
    }
}

/// No block is too large to count its instructions plus one.
pub open spec fn sizes_fit(bs: Seq<BasicBlock>) -> bool {
    forall|i: int| 0 <= i < bs.len() ==> #[trigger] bs[i].instructions@.len() < usize::MAX
}

proof fn lemma_scan_bounds(sizes: Seq<int>, k: int)
    requires
        0 <= k <= sizes.len(),
        forall|i: int| 0 <= i < sizes.len() ==> 1 <= #[trigger] sizes[i] <= usize::MAX,
    ensures
        0 <= segment_scan(sizes, k).1 <= usize::MAX,
        forall|t: int|
            0 <= t < segment_scan(sizes, k).0.len() ==> 0 <= #[trigger] segment_scan(sizes, k).0[t]
                <= usize::MAX,
    decreases k,
{
    if k > 0 {
        lemma_scan_bounds(sizes, k - 1);
    }
}

/// Streaming layout optimizer for fast instantiation.
pub struct StreamingLayoutOptimizer {
    function_order: Vec<String>,
    segment_boundaries: Vec<usize>,
    enabled: bool,
}

impl StreamingLayoutOptimizer {
    /// The segment boundaries recorded so far.
    pub closed spec fn boundaries(&self) -> Seq<usize> {
        self.segment_boundaries@
    }

    /// Whether the optimizer changes layouts.
    pub closed spec fn is_enabled(&self) -> bool {
        self.enabled
    }

    /// An enabled optimizer with no recorded boundaries.
    pub fn new() -> (r: StreamingLayoutOptimizer)
        ensures
            r.is_enabled(),
            r.boundaries().len() == 0,
    {
        StreamingLayoutOptimizer {
            function_order: Vec::new(),
            segment_boundaries: Vec::new(),
            enabled: true,
        }
    }

    /// Enables or disables the optimizer.
    pub fn set_enabled(&mut self, enabled: bool)
        ensures
            final(self).is_enabled() == enabled,
            final(self).boundaries() == old(self).boundaries(),
    {
        self.enabled = enabled;
    }

    /// The segment boundaries recorded so far.
    pub fn segment_boundaries(&self) -> (r: &Vec<usize>)
        ensures
            r@ == self.boundaries(),
    {
        &self.segment_boundaries
    }

    /// Lays out the blocks depth-first and records the segment boundaries of
    /// the new layout; does nothing when disabled. Always succeeds.
    pub fn optimize_layout(&mut self, wasmir: &mut WasmIR) -> (r: Result<(), BackendError>)
        requires
            sizes_fit(old(wasmir).basic_blocks@),
        ensures
            r is Ok,
            final(self).is_enabled() == old(self).is_enabled(),
            old(self).is_enabled() ==> {
                &&& layout_applied(*old(wasmir), *final(wasmir))
                &&& final(self).boundaries().map_values(|x: usize| x as int) == segments_recorded(
                    old(self).boundaries().map_values(|x: usize| x as int),
                    final(wasmir).basic_blocks@,
                )
            },
            !old(self).is_enabled() ==> *final(wasmir) == *old(wasmir) && final(self).boundaries()
                == old(self).boundaries(),
    {
        if !self.enabled {
            return Ok(());
        }
        let _ = self.reorder_basic_blocks(wasmir);
        let _ = self.create_code_segments(wasmir);
        Ok(())
    }

    /// Reorders the blocks in depth-first order from the entry block; blocks
    /// not reached are dropped.
    pub fn reorder_basic_blocks(&mut self, wasmir: &mut WasmIR) -> (r: Result<(), BackendError>)
        requires
            sizes_fit(old(wasmir).basic_blocks@),
        ensures
            r is Ok,
            *final(self) == *old(self),
            layout_applied(*old(wasmir), *final(wasmir)),
            sizes_fit(final(wasmir).basic_blocks@),
    {
        let tr: Traversal = traverse(&wasmir.basic_blocks);
        let n = wasmir.basic_blocks.len();
        let ghost orig = wasmir.basic_blocks@;
        let ghost ord = tr.order@;
        let mut ids: Vec<usize> = Vec::new();
        let mut i: usize = 0;
        while i < n
            invariant
                0 <= i <= n,
                n == orig.len(),
                wasmir.basic_blocks@ == orig,
                ids@ == block_ids(orig).subrange(0, i as int),
            decreases n - i,
        {
            ids.push(wasmir.basic_blocks[i].id.0);
            assert(ids@ =~= block_ids(orig).subrange(0, i + 1));
            i = i + 1;
        }
        assert(ids@ =~= block_ids(orig));
        let ghost w0 = *wasmir;
        let mut old_blocks: Vec<BasicBlock> = Vec::new();
        std::mem::swap(&mut old_blocks, &mut wasmir.basic_blocks);
        let mut new_blocks: Vec<BasicBlock> = Vec::new();
        let m = tr.order.len();
        let mut k: usize = 0;
        while k < m
            invariant
                0 <= k <= m,
                m == ord.len(),
                tr.order@ == ord,
                traversal_correct(orig, tr),
                ids@ == block_ids(orig),
                n == orig.len(),
                old_blocks@.len() == n,
                new_blocks@.len() == layout_positions(ord, ids@, k as int).len(),
                forall|t: int|
                    0 <= t < new_blocks@.len() ==> #[trigger] new_blocks@[t] == orig[layout_positions(
                        ord,
                        ids@,
                        k as int,
                    )[t]],
                forall|t: int|
                    0 <= t < layout_positions(ord, ids@, k as int).len() ==> 0 <= #[trigger] layout_positions(
                        ord,
                        ids@,
                        k as int,
                    )[t] < n && exists|mm: int|
                        0 <= mm < k && ids@[layout_positions(ord, ids@, k as int)[t]] == ord[mm],
                forall|p: int|
                    0 <= p < n && !layout_positions(ord, ids@, k as int).contains(p) ==> old_blocks@[p]
                        == orig[p],
                same_header(w0, *wasmir),
                wasmir.locals == w0.locals,
                w0.basic_blocks@ == orig,
            decreases m - k,
        {
            let idx = tr.order[k];
            let ghost prevp = layout_positions(ord, ids@, k as int);
            proof {
                lemma_find_from(ids@, idx, 0);
            }
            let found = find_id(&ids, idx);
            if let Some(p) = found {
                proof {
                    if prevp.contains(p as int) {
                        let t = choose|t: int| 0 <= t < prevp.len() && prevp[t] == p;
                        let mm = choose|mm: int| 0 <= mm < k && ids@[prevp[t]] == ord[mm];
                        assert(ord[mm] == ord[k as int]);
                        assert(false);
                    }
                }
                let mut blk = BasicBlock {
                    id: BlockId(0),
                    instructions: Vec::new(),
                    terminator: Terminator::Unreachable,
                };
                std::mem::swap(&mut blk, &mut old_blocks[p]);
                new_blocks.push(blk);
                proof {
                    let newp = layout_positions(ord, ids@, k + 1);
                    assert(newp == prevp.push(p as int));
                    assert forall|t: int| 0 <= t < newp.len() implies 0 <= #[trigger] newp[t] < n
                        && exists|mm: int| 0 <= mm < k + 1 && ids@[newp[t]] == ord[mm] by {
                        if t < prevp.len() {
                            assert(newp[t] == prevp[t]);
                            let mm = choose|mm: int| 0 <= mm < k && ids@[prevp[t]] == ord[mm];
                        } else {
                            assert(ids@[newp[t]] == ord[k as int]);
                        }
                    }
                    assert(newp[prevp.len() as int] == p as int);
                    assert forall|q: int| 0 <= q < n && !newp.contains(q) implies old_blocks@[q] == orig[q] by {
                        assert(q != p as int);
                        if prevp.contains(q) {
                            let t = choose|t: int| 0 <= t < prevp.len() && prevp[t] == q;
                            assert(newp[t] == q);
                        }
                    }
                    assert forall|t: int| 0 <= t < new_blocks@.len() implies #[trigger] new_blocks@[t] == orig[newp[t]] by {
                        if t < prevp.len() {
                            assert(newp[t] == prevp[t]);
                        }
                    }
                }
            } else {
                proof {
                    assert(layout_positions(ord, ids@, k + 1) == prevp);
                }
            }
            k = k + 1;
        }
        wasmir.basic_blocks = new_blocks;
        proof {
            let pos = layout_positions(ord, block_ids(orig), ord.len() as int);
            assert(dfs_order(orig, ord));
            assert forall|t: int| 0 <= t < pos.len() implies #[trigger] wasmir.basic_blocks@[t] == orig[pos[t]] by {}
            assert(laid_out_by(orig, wasmir.basic_blocks@, ord));
            assert(layout_applied(w0, *wasmir));
            assert forall|i: int| 0 <= i < wasmir.basic_blocks@.len() implies #[trigger] wasmir.basic_blocks@[i].instructions@.len() < usize::MAX by {
                assert(wasmir.basic_blocks@[i] == orig[pos[i]]);
            }
        }
        Ok(())
    }

    /// Records segment boundaries for the current block order.
    pub fn create_code_segments(&mut self, wasmir: &WasmIR) -> (r: Result<(), BackendError>)
        requires
            sizes_fit(wasmir.basic_blocks@),
        ensures
            r is Ok,
            final(self).is_enabled() == old(self).is_enabled(),
            final(self).boundaries().map_values(|x: usize| x as int) == segments_recorded(
                old(self).boundaries().map_values(|x: usize| x as int),
                wasmir.basic_blocks@,
            ),
    {
        let ghost sizes = block_sizes(wasmir.basic_blocks@);
        let ghost start = self.segment_boundaries@.map_values(|x: usize| x as int);
        let n = wasmir.basic_blocks.len();
        let mut current_offset: usize = 0;
        let mut found: usize = 0;
        let mut i: usize = 0;
        proof {
            assert forall|j: int| 0 <= j < sizes.len() implies 1 <= #[trigger] sizes[j] <= usize::MAX by {
                assert(wasmir.basic_blocks@[j].instructions@.len() < usize::MAX);
            }
        }
        while i < n
            invariant
                0 <= i <= n,
                n == wasmir.basic_blocks@.len(),
                sizes == block_sizes(wasmir.basic_blocks@),
                sizes_fit(wasmir.basic_blocks@),
                forall|j: int| 0 <= j < sizes.len() ==> 1 <= #[trigger] sizes[j] <= usize::MAX,
                current_offset as int == segment_scan(sizes, i as int).1,
                found as int == segment_scan(sizes, i as int).0.len(),
                self.segment_boundaries@.map_values(|x: usize| x as int) == start + segment_scan(
                    sizes,
                    i as int,
                ).0,
                self.enabled == old(self).enabled,
            decreases n - i,
        {
            let block_size = wasmir.basic_blocks[i].instructions.len() + 1;
            proof {
                lemma_scan_bounds(sizes, i as int);
                lemma_scan_bounds(sizes, i + 1);
                assert(sizes[i as int] == block_size);
            }
            if current_offset > SEGMENT_LIMIT || block_size > SEGMENT_LIMIT - current_offset {
                let ghost before = self.segment_boundaries@;
                self.segment_boundaries.push(current_offset);
                proof {
                    assert(self.segment_boundaries@.map_values(|x: usize| x as int) =~= before.map_values(
                        |x: usize| x as int,
                    ).push(current_offset as int));
                    assert(found < usize::MAX) by {
                        assert(segment_scan(sizes, i + 1).0.len() == found + 1);
                        assert(segment_scan(sizes, i + 1).0.len() <= i + 1) by {
                            lemma_scan_len(sizes, i + 1);
                        }
                    }
                }
                current_offset = block_size;
                found = found + 1;
            } else {
                current_offset = current_offset + block_size;
            }
            assert(self.segment_boundaries@.map_values(|x: usize| x as int) =~= start + segment_scan(
                sizes,
                i + 1,
            ).0);
            i = i + 1;
        }
        if self.segment_boundaries.len() > 0 {
            let ghost before = self.segment_boundaries@;
            self.segment_boundaries.push(current_offset);
            assert(self.segment_boundaries@.map_values(|x: usize| x as int) =~= before.map_values(
                |x: usize| x as int,
            ).push(current_offset as int));
        }
        assert(self.segment_boundaries@.map_values(|x: usize| x as int) =~= segments_recorded(
            start,
            wasmir.basic_blocks@,
        ));
        Ok(())
    }
}

proof fn lemma_scan_len(sizes: Seq<int>, k: int)
    requires
        0 <= k,
    ensures
        segment_scan(sizes, k).0.len() <= k,
    decreases k,
{
    if k > 0 {
        lemma_scan_len(sizes, k - 1);
    }
}

/// The first position holding block number `id`.
fn find_id(ids: &Vec<usize>, id: usize) -> (r: Option<usize>)
    ensures
        match find_from(ids@, id, 0) {
            Some(p) => r == Some(p as usize),
            None => r is None,
        },
{
    let mut i: usize = 0;
    while i < ids.len()
        invariant
            0 <= i <= ids@.len(),
            find_from(ids@, id, 0) == find_from(ids@, id, i as int),
        decreases ids@.len() - i,
    {
        if ids[i] == id {
            return Some(i);
        }
        i = i + 1;
    }
    None
}

} // verus!
