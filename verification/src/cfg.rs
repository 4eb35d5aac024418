//! Control-flow graph of a WasmIR function: successors, reachability from the
//! entry block and the depth-first traversal used by dead-block removal and
//! the streaming block layout.
use vstd::prelude::*;
use crate::wasmir::{BasicBlock, BlockId, Operand, Terminator};

verus! {

/// Successor block numbers of a terminator, in the order the traversal
/// visits them: `then` before `else`, the default of a switch before its
/// targets.
pub open spec fn successors(t: Terminator) -> Seq<usize> {
    match t {
        Terminator::Branch { then_block, else_block, .. } => seq![then_block.0, else_block.0],
        Terminator::Jump { target } => seq![target.0],
        Terminator::Switch { targets, default_target, .. } => seq![default_target.0]
            + targets@.map_values(|p: (Operand, BlockId)| p.1.0),
        _ => Seq::empty(),
    }
}

/// Control may pass from the block at position `j` to block number `x`.
pub open spec fn steps(bs: Seq<BasicBlock>, j: usize, x: usize) -> bool {
    j < bs.len() && successors(bs[j as int].terminator).contains(x)
}

/// `p` is a path of block numbers from the entry block (number 0), each
/// step following a control-flow edge.
pub open spec fn is_path(bs: Seq<BasicBlock>, p: Seq<usize>) -> bool {
    &&& p.len() > 0
    &&& p[0] == 0
    &&& forall|i: int| 0 <= i < p.len() - 1 ==> #[trigger] steps(bs, p[i], p[i + 1])
}

/// Block number `x` is reachable from the entry block.
pub open spec fn reachable(bs: Seq<BasicBlock>, x: usize) -> bool {
    exists|p: Seq<usize>| is_path(bs, p) && p.last() == x
}

/// A successor of a reachable block is reachable.
pub proof fn lemma_reachable_step(bs: Seq<BasicBlock>, j: usize, x: usize)
    requires
        reachable(bs, j),
        steps(bs, j, x),
    ensures
        reachable(bs, x),
{
    let p = choose|p: Seq<usize>| is_path(bs, p) && p.last() == j;
    let q = p.push(x);
    assert forall|i: int| 0 <= i < q.len() - 1 implies #[trigger] steps(bs, q[i], q[i + 1]) by {
        if i < p.len() - 1 {
            assert(q[i] == p[i] && q[i + 1] == p[i + 1]);
        }
    }
    assert(is_path(bs, q) && q.last() == x);
}

/// The entry block is reachable.
pub proof fn lemma_entry_reachable(bs: Seq<BasicBlock>)
    ensures
        reachable(bs, 0),
{
    let p = seq![0usize];
    assert(is_path(bs, p) && p.last() == 0);
}

/// A set that holds the entry and is closed under steps holds every block
/// on a path.
pub proof fn lemma_closed_holds_path(bs: Seq<BasicBlock>, v: spec_fn(usize) -> bool, p: Seq<usize>)
    requires
        v(0),
        forall|j: usize, s: usize| v(j) && #[trigger] steps(bs, j, s) ==> v(s),
        is_path(bs, p),
    ensures
        v(p.last()),
    decreases p.len(),
{
    if p.len() > 1 {
        let q = p.drop_last();
        assert forall|i: int| 0 <= i < q.len() - 1 implies #[trigger] steps(bs, q[i], q[i + 1]) by {
            assert(steps(bs, p[i], p[i + 1]));
        }
        lemma_closed_holds_path(bs, v, q);
        let i = p.len() - 2;
        assert(steps(bs, p[i], p[i + 1]));
        assert(q.last() == p[i]);
    }
}

/// Appends the successors of a terminator to a work list.
pub fn push_successors(t: &Terminator, worklist: &mut Vec<usize>)
    ensures
        final(worklist)@ == old(worklist)@ + successors(*t),
{
    match t {
        Terminator::Branch { then_block, else_block, .. } => {
            worklist.push(then_block.0);
            worklist.push(else_block.0);
            assert(worklist@ =~= old(worklist)@ + successors(*t));
        },
        Terminator::Jump { target } => {
            worklist.push(target.0);
            assert(worklist@ =~= old(worklist)@ + successors(*t));
        },
        Terminator::Switch { targets, default_target, .. } => {
            worklist.push(default_target.0);
            let n = targets.len();
            let mut i: usize = 0;
            while i < n
                invariant
                    0 <= i <= n,
                    n == targets@.len(),
                    worklist@ == old(worklist)@ + seq![default_target.0] + targets@.subrange(
                        0,
                        i as int,
                    ).map_values(|p: (Operand, BlockId)| p.1.0),
                decreases n - i,
            {
                let (_, b) = targets[i];
                worklist.push(b.0);
                assert(targets@.subrange(0, i + 1).map_values(|p: (Operand, BlockId)| p.1.0)
                    =~= targets@.subrange(0, i as int).map_values(|p: (Operand, BlockId)| p.1.0).push(
                    b.0,
                ));
                i = i + 1;
            }
            assert(targets@.subrange(0, n as int) =~= targets@);
            assert(worklist@ =~= old(worklist)@ + successors(*t));
        },
        _ => {
            assert(worklist@ =~= old(worklist)@ + successors(*t));
        },
    }
}

/// The outcome of a depth-first traversal from the entry block.
pub struct Traversal {
    /// Positions of existing blocks in the order they were first visited.
    pub order: Vec<usize>,
    /// For each existing position, whether it was visited.
    pub seen: Vec<bool>,
    /// Visited block numbers that name no existing position.
    pub far: Vec<usize>,
}

impl Traversal {
    /// Whether block number `x` was visited.
    pub open spec fn visited(&self, x: usize) -> bool {
        if x < self.seen@.len() {
            self.seen@[x as int]
        } else {
            self.far@.contains(x)
        }
    }

    /// Whether block number `x` was visited.
    pub fn is_visited(&self, x: usize) -> (r: bool)
        ensures
            r == self.visited(x),
    {
        if x < self.seen.len() {
            self.seen[x]
        } else {
            let mut i: usize = 0;
            while i < self.far.len()
                invariant
                    0 <= i <= self.far@.len(),
                    x >= self.seen@.len(),
                    forall|k: int| 0 <= k < i ==> self.far@[k] != x,
                decreases self.far@.len() - i,
            {
                if self.far[i] == x {
                    assert(self.far@[i as int] == x);
                    assert(self.far@.contains(x));
                    assert(!(x < self.seen@.len()));
                    assert(self.visited(x));
                    return true;
                }
                i = i + 1;
            }
            false
        }
    }
}

/// Number of unset flags.
pub open spec fn count_unset(s: Seq<bool>) -> nat
    decreases s.len(),
{
    if s.len() == 0 {
        0
    } else {
        count_unset(s.drop_last()) + if s.last() { 0nat } else { 1nat }
    }
}

/// Setting an unset flag leaves one fewer unset.
pub proof fn lemma_count_unset_set(s: Seq<bool>, i: int)
    requires
        0 <= i < s.len(),
        !s[i],
    ensures
        count_unset(s.update(i, true)) + 1 == count_unset(s),
    decreases s.len(),
{
    if i < s.len() - 1 {
        lemma_count_unset_set(s.drop_last(), i);
        assert(s.update(i, true).drop_last() =~= s.drop_last().update(i, true));
    } else {
        assert(s.update(i, true).drop_last() =~= s.drop_last());
    }
}

/// The state of the depth-first traversal: the visiting order, a flag per
/// position telling whether it was visited, the visited numbers that name
/// no position, and the work list (its last entry is visited next).
pub type DfsState = (Seq<usize>, Seq<bool>, Seq<usize>, Seq<usize>);

/// Block number `x` was visited in the state `st`.
pub open spec fn dfs_visited(st: DfsState, x: usize) -> bool {
    if x < st.1.len() {
        st.1[x as int]
    } else {
        st.2.contains(x)
    }
}

/// One step of the traversal: the last entry of the work list is taken;
/// unless it was visited, it is recorded, and for a position its
/// successors are pushed.
pub open spec fn dfs_step(bs: Seq<BasicBlock>, st: DfsState) -> DfsState {
    let w = st.3.last();
    let wl = st.3.drop_last();
    if dfs_visited(st, w) {
        (st.0, st.1, st.2, wl)
    } else if w < st.1.len() {
        (st.0.push(w), st.1.update(w as int, true), st.2, wl + successors(bs[w as int].terminator))
    } else {
        (st.0, st.1, st.2.push(w), wl)
    }
}

/// The traversal run from `st` until the work list is empty.
pub open spec fn dfs_run(bs: Seq<BasicBlock>, st: DfsState) -> DfsState
    decreases count_unset(st.1), st.3.len(),
{
    if st.3.len() == 0 {
        st
    } else {
        proof {
            let w = st.3.last();
            if !dfs_visited(st, w) && w < st.1.len() {
                lemma_count_unset_set(st.1, w as int);
            }
        }
        dfs_run(bs, dfs_step(bs, st))
    }
}

/// The state after visiting the entry block.
pub open spec fn dfs_start(bs: Seq<BasicBlock>) -> DfsState {
    if bs.len() > 0 {
        (
            seq![0usize],
            Seq::new(bs.len(), |i: int| i == 0),
            Seq::empty(),
            successors(bs[0].terminator),
        )
    } else {
        (Seq::empty(), Seq::empty(), seq![0usize], Seq::empty())
    }
}

/// The order in which the depth-first traversal first visits the blocks.
pub open spec fn depth_first_order(bs: Seq<BasicBlock>) -> Seq<usize> {
    dfs_run(bs, dfs_start(bs)).0
}

/// The blocks have the same number and the same terminators.
pub open spec fn same_shape(a: Seq<BasicBlock>, b: Seq<BasicBlock>) -> bool {
    &&& a.len() == b.len()
    &&& forall|i: int| 0 <= i < a.len() ==> #[trigger] a[i].terminator == b[i].terminator
}

proof fn lemma_dfs_run_shape(a: Seq<BasicBlock>, b: Seq<BasicBlock>, st: DfsState)
    requires
        same_shape(a, b),
        st.1.len() == a.len(),
    ensures
        dfs_run(a, st) == dfs_run(b, st),
    decreases count_unset(st.1), st.3.len(),
{
    if st.3.len() > 0 {
        let w = st.3.last();
        if !dfs_visited(st, w) && w < st.1.len() {
            lemma_count_unset_set(st.1, w as int);
            assert(a[w as int].terminator == b[w as int].terminator);
        }
        assert(dfs_step(a, st) == dfs_step(b, st));
        lemma_dfs_run_shape(a, b, dfs_step(a, st));
    }
}

/// The traversal order depends only on the terminators of the blocks.
pub proof fn lemma_depth_first_order_shape(a: Seq<BasicBlock>, b: Seq<BasicBlock>)
    requires
        same_shape(a, b),
    ensures
        depth_first_order(a) == depth_first_order(b),
{
    if a.len() > 0 {
        assert(a[0].terminator == b[0].terminator);
    }
    assert(dfs_start(a) == dfs_start(b));
    lemma_dfs_run_shape(a, b, dfs_start(a));
}

/// The block at position `k` of `order` is a successor of a block placed
/// before it.
pub open spec fn follows_earlier(bs: Seq<BasicBlock>, order: Seq<usize>, k: int) -> bool {
    exists|m: int| 0 <= m < k && steps(bs, order[m], order[k])
}

/// The properties of a finished depth-first traversal of `bs`.
pub open spec fn traversal_correct(bs: Seq<BasicBlock>, tr: Traversal) -> bool {
    &&& tr.seen@.len() == bs.len()
    &&& forall|x: usize| tr.visited(x) <==> reachable(bs, x)
    &&& tr.order@.no_duplicates()
    &&& forall|k: int|
        0 <= k < tr.order@.len() ==> tr.order@[k] < bs.len() && reachable(bs, tr.order@[k])
    &&& forall|x: usize| x < bs.len() && reachable(bs, x) ==> tr.order@.contains(x)
    &&& bs.len() > 0 ==> tr.order@.len() > 0 && tr.order@[0] == 0
    &&& forall|k: int| 1 <= k < tr.order@.len() ==> #[trigger] follows_earlier(bs, tr.order@, k)
}

proof fn lemma_traversal_correct(bs: Seq<BasicBlock>, tr: Traversal)
    requires
        tr.seen@.len() == bs.len(),
        forall|x: usize| tr.visited(x) <==> reachable(bs, x),
        tr.order@.no_duplicates(),
        forall|k: int|
            0 <= k < tr.order@.len() ==> tr.order@[k] < bs.len() && reachable(bs, tr.order@[k]),
        forall|x: usize| x < bs.len() && reachable(bs, x) ==> tr.order@.contains(x),
        bs.len() > 0 ==> tr.order@.len() > 0 && tr.order@[0] == 0,
        forall|k: int| 1 <= k < tr.order@.len() ==> #[trigger] follows_earlier(bs, tr.order@, k),
    ensures
        traversal_correct(bs, tr),
{
}

/// Depth-first traversal from the entry block, with a work list: the last
/// pushed block is visited first, and each block's successors are pushed
/// in [`successors`] order.
#[verifier::rlimit(50)]
pub fn traverse(bs: &Vec<BasicBlock>) -> (tr: Traversal)
    ensures
        traversal_correct(bs@, tr),
        tr.order@ == depth_first_order(bs@),
{
    let nb = bs.len();
    let mut seen: Vec<bool> = Vec::new();
    let mut i: usize = 0;
    while i < nb
        invariant
            0 <= i <= nb,
            seen@.len() == i,
            forall|k: int| 0 <= k < i ==> !seen@[k],
        decreases nb - i,
    {
        seen.push(false);
        i = i + 1;
    }
    let mut tr = Traversal { order: Vec::new(), seen, far: Vec::new() };
    let mut worklist: Vec<usize> = Vec::new();
    proof {
        lemma_entry_reachable(bs@);
    }
    if nb > 0 {
        tr.seen.set(0, true);
        tr.order.push(0);
        push_successors(&bs[0].terminator, &mut worklist);
        proof {
            assert forall|s: usize| #[trigger] worklist@.contains(s) implies steps(bs@, 0, s) by {}
            assert(tr.order@[0] == 0);
            assert(tr.visited(0));
            assert forall|x: usize| x < nb && tr.visited(x) implies tr.order@.contains(x) by {
                if x != 0 {
                    assert(!tr.seen@[x as int]);
                }
            }
        }
    } else {
        tr.far.push(0);
        assert(tr.far@[0] == 0);
        assert(tr.visited(0));
    }
    proof {
        assert forall|k: int| 0 <= k < worklist@.len() implies reachable(bs@, #[trigger] worklist@[k]) by {
            if nb > 0 {
                assert(worklist@.contains(worklist@[k]));
                lemma_reachable_step(bs@, 0, worklist@[k]);
            }
        }
    }
    proof {
        assert((tr.order@, tr.seen@, tr.far@, worklist@) == dfs_start(bs@)) by {
            if nb > 0 {
                assert(tr.seen@ =~= Seq::new(bs@.len(), |i: int| i == 0));
                assert(tr.order@ =~= seq![0usize]);
                assert(worklist@ =~= successors(bs@[0].terminator));
            } else {
                assert(tr.far@ =~= seq![0usize]);
            }
        }
    }
    while worklist.len() > 0
        invariant
            nb == bs@.len(),
            tr.seen@.len() == nb,
            tr.visited(0),
            forall|x: usize| tr.visited(x) ==> reachable(bs@, x),
            forall|k: int| 0 <= k < worklist@.len() ==> reachable(bs@, #[trigger] worklist@[k]),
            forall|j: usize, s: usize|
                tr.visited(j) && #[trigger] steps(bs@, j, s) ==> tr.visited(s) || worklist@.contains(s),
            tr.order@.no_duplicates(),
            forall|k: int| 0 <= k < tr.order@.len() ==> tr.order@[k] < nb && tr.visited(#[trigger] tr.order@[k]),
            forall|x: usize| x < nb && tr.visited(x) ==> tr.order@.contains(x),
            nb > 0 ==> tr.order@.len() > 0 && tr.order@[0] == 0,
            forall|k: int|
                1 <= k < tr.order@.len() ==> exists|m: int| 0 <= m < k && steps(bs@, tr.order@[m], #[trigger] tr.order@[k]),
            forall|w: usize| #[trigger] worklist@.contains(w) ==> exists|m: int| 0 <= m < tr.order@.len() && steps(bs@, tr.order@[m], w),
            dfs_run(bs@, (tr.order@, tr.seen@, tr.far@, worklist@)) == dfs_run(bs@, dfs_start(bs@)),
        decreases count_unset(tr.seen@), worklist@.len(),
    {
        let ghost st_before: DfsState = (tr.order@, tr.seen@, tr.far@, worklist@);
        let ghost wl_before = worklist@;
        let ghost tr_before_order = tr.order@;
        let ghost seen_before = tr.seen@;
        let ghost far_before = tr.far@;
        proof {
            assert forall|x: usize| x < nb && seen_before[x as int] implies tr_before_order.contains(x) by {
                assert(tr.visited(x));
            }
            assert forall|x: usize| x < nb && seen_before[x as int] implies reachable(bs@, x) by {
                assert(tr.visited(x));
            }
            assert forall|x: usize| x >= nb && far_before.contains(x) implies reachable(bs@, x) by {
                assert(tr.visited(x));
            }
            assert(reachable(bs@, wl_before[wl_before.len() - 1]));
        }
        let w = worklist.pop().unwrap();
        let ghost tr_before_visited_w = tr.visited(w);
        proof {
            assert(wl_before.contains(w)) by {
                assert(wl_before[wl_before.len() - 1] == w);
            }
            assert forall|s: usize| wl_before.contains(s) && s != w implies worklist@.contains(s) by {
                let k = choose|k: int| 0 <= k < wl_before.len() && wl_before[k] == s;
                assert(worklist@[k] == s);
            }
            assert forall|s: usize| #[trigger] worklist@.contains(s) implies wl_before.contains(s) by {
                let k = choose|k: int| 0 <= k < worklist@.len() && worklist@[k] == s;
                assert(wl_before[k] == s);
            }
        }
        if !tr.is_visited(w) {
            if w < nb {
                proof {
                    lemma_count_unset_set(tr.seen@, w as int);
                    assert(!tr.order@.contains(w));
                }
                tr.seen.set(w, true);
                tr.order.push(w);
                let ghost wl_mid = worklist@;
                push_successors(&bs[w].terminator, &mut worklist);
                proof {
                    assert forall|s: usize| #[trigger] worklist@.contains(s) implies wl_mid.contains(s) || steps(bs@, w, s) by {
                        let k = choose|k: int| 0 <= k < worklist@.len() && worklist@[k] == s;
                        if k < wl_mid.len() {
                            assert(wl_mid[k] == s);
                        } else {
                            assert(successors(bs@[w as int].terminator)[k - wl_mid.len()] == s);
                        }
                    }
                    assert forall|s: usize| wl_mid.contains(s) implies #[trigger] worklist@.contains(s) by {
                        let k = choose|k: int| 0 <= k < wl_mid.len() && wl_mid[k] == s;
                        assert(worklist@[k] == s);
                    }
                    assert forall|s: usize| steps(bs@, w, s) implies #[trigger] worklist@.contains(s) by {
                        let k = choose|k: int| 0 <= k < successors(bs@[w as int].terminator).len() && successors(bs@[w as int].terminator)[k] == s;
                        assert(worklist@[wl_mid.len() + k] == s);
                    }
                    assert forall|k: int| 0 <= k < worklist@.len() implies reachable(bs@, #[trigger] worklist@[k]) by {
                        if k < wl_mid.len() {
                            assert(wl_mid[k] == worklist@[k]);
                            assert(wl_before[k] == worklist@[k]);
                        } else {
                            assert(successors(bs@[w as int].terminator)[k - wl_mid.len()] == worklist@[k]);
                            assert(steps(bs@, w, worklist@[k]));
                            lemma_reachable_step(bs@, w, worklist@[k]);
                        }
                    }
                    let ko = (tr.order@.len() - 1) as int;
                    assert(tr.order@[ko] == w);
                    assert forall|x: usize| x < nb && tr.visited(x) implies tr.order@.contains(x) by {
                        if x == w {
                            assert(tr.order@[ko] == x);
                        } else {
                            assert(seen_before[x as int]);
                            assert(tr_before_order.contains(x));
                            let k = choose|k: int| 0 <= k < tr_before_order.len() && tr_before_order[k] == x;
                            assert(tr.order@[k] == x);
                        }
                    }
                    assert forall|k: int|
                        1 <= k < tr.order@.len() implies exists|m: int| 0 <= m < k && steps(bs@, tr.order@[m], #[trigger] tr.order@[k]) by {
                        if k == ko {
                            assert(wl_before.contains(w));
                            let m = choose|m: int| 0 <= m < tr_before_order.len() && steps(bs@, tr_before_order[m], w);
                            assert(tr.order@[m] == tr_before_order[m]);
                        } else {
                            assert(tr.order@[k] == tr_before_order[k]);
                            let m = choose|m: int| 0 <= m < k && steps(bs@, tr_before_order[m], tr_before_order[k]);
                            assert(tr.order@[m] == tr_before_order[m]);
                        }
                    }
                    assert forall|v: usize| #[trigger] worklist@.contains(v) implies exists|m: int| 0 <= m < tr.order@.len() && steps(bs@, tr.order@[m], v) by {
                        if wl_mid.contains(v) {
                            assert(wl_before.contains(v));
                            let m = choose|m: int| 0 <= m < tr_before_order.len() && steps(bs@, tr_before_order[m], v);
                            assert(tr.order@[m] == tr_before_order[m]);
                        } else {
                            assert(steps(bs@, w, v));
                            assert(tr.order@[ko] == w);
                        }
                    }
                    assert forall|j: usize, s: usize|
                        tr.visited(j) && #[trigger] steps(bs@, j, s) implies tr.visited(s) || worklist@.contains(s) by {
                        if j != w {
                            if s != w {
                                if wl_before.contains(s) {
                                    assert(wl_mid.contains(s));
                                }
                            }
                        }
                    }
                    assert forall|x: usize| tr.visited(x) implies reachable(bs@, x) by {
                        if x != w {
                            if x < nb {
                                assert(seen_before[x as int]);
                            } else {
                                assert(far_before.contains(x));
                            }
                        }
                    }
                    assert forall|k: int| 0 <= k < tr.order@.len() implies tr.order@[k] < nb && tr.visited(#[trigger] tr.order@[k]) by {
                        if k < ko {
                            assert(tr.order@[k] == tr_before_order[k]);
                        }
                    }
                }
            } else {
                tr.far.push(w);
                proof {
                    assert(tr.far@.contains(w)) by {
                        assert(tr.far@[tr.far@.len() - 1] == w);
                    }
                    assert forall|x: usize| x >= nb && far_before.contains(x) implies tr.far@.contains(x) by {
                        let k = choose|k: int| 0 <= k < far_before.len() && far_before[k] == x;
                        assert(tr.far@[k] == x);
                    }
                    assert forall|x: usize| x >= nb && tr.far@.contains(x) implies far_before.contains(x) || x == w by {
                        let k = choose|k: int| 0 <= k < tr.far@.len() && tr.far@[k] == x;
                        if k < far_before.len() {
                            assert(far_before[k] == x);
                        }
                    }
                    assert forall|j: usize, s: usize|
                        tr.visited(j) && #[trigger] steps(bs@, j, s) implies tr.visited(s) || worklist@.contains(s) by {
                        if s != w {
                            if wl_before.contains(s) {
                                assert(worklist@.contains(s));
                            }
                        }
                    }
                    assert forall|x: usize| tr.visited(x) implies reachable(bs@, x) by {
                        if x != w {
                            if x < nb {
                                assert(seen_before[x as int]);
                            } else {
                                assert(far_before.contains(x));
                            }
                        }
                    }
                }
            }
        } else {
            proof {
                assert forall|j: usize, s: usize|
                    tr.visited(j) && #[trigger] steps(bs@, j, s) implies tr.visited(s) || worklist@.contains(s) by {
                    if s != w {
                        if wl_before.contains(s) {
                            assert(worklist@.contains(s));
                        }
                    }
                }
            }
        }
        proof {
            let st_after: DfsState = (tr.order@, tr.seen@, tr.far@, worklist@);
            assert(st_after == dfs_step(bs@, st_before)) by {
                assert(dfs_visited(st_before, w) == tr_before_visited_w);
            }
            assert(dfs_run(bs@, st_before) == dfs_run(bs@, dfs_step(bs@, st_before)));
        }
    }
    proof {
        let v = |x: usize| tr.visited(x);
        assert forall|j: usize, s: usize| v(j) && #[trigger] steps(bs@, j, s) implies v(s) by {
            assert(!worklist@.contains(s));
        }
        assert forall|x: usize| reachable(bs@, x) implies tr.visited(x) by {
            let p = choose|p: Seq<usize>| is_path(bs@, p) && p.last() == x;
            lemma_closed_holds_path(bs@, v, p);
        }
        assert forall|k: int| 0 <= k < tr.order@.len() implies tr.order@[k] < bs@.len() && reachable(bs@, tr.order@[k]) by {
            assert(tr.visited(tr.order@[k]));
        }
        assert forall|k: int| 1 <= k < tr.order@.len() implies #[trigger] follows_earlier(bs@, tr.order@, k) by {
            assert(tr.order@[k] == tr.order@[k]);
        }
        assert(forall|x: usize| tr.visited(x) <==> reachable(bs@, x));
        assert forall|x: usize| x < bs@.len() && reachable(bs@, x) implies tr.order@.contains(x) by {
            assert(tr.visited(x));
        }
        lemma_traversal_correct(bs@, tr);
        assert(dfs_run(bs@, (tr.order@, tr.seen@, tr.far@, worklist@)) == (tr.order@, tr.seen@, tr.far@, worklist@));
    }
    tr
}

} // verus!
