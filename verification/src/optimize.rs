//! Function-level optimizations on WasmIR: dead code elimination, constant
//! folding, instruction selection, and the streaming block layout.
use vstd::prelude::*;
use crate::wasmir::{BasicBlock, BlockId, Instruction, Operand, Terminator, Type, WasmIR};
use crate::fold::{blocks_mapped, fold_blocks, fold_instruction, select_blocks, select_instruction};
use crate::cfg::{lemma_reachable_step, reachable, steps, successors, traversal_correct, traverse, Traversal};

verus! {

// ---------------------------------------------------------------------------
// Selecting elements by a mask
// ---------------------------------------------------------------------------

/// The elements among the first `k` of `s` whose mask entry is set, in order.
pub open spec fn select<A>(s: Seq<A>, keep: Seq<bool>, k: int) -> Seq<A>
    decreases k,
{
    if k <= 0 {
        Seq::empty()
    } else {
        let prev = select(s, keep, k - 1);
        if keep[k - 1] {
            prev.push(s[k - 1])
        } else {
            prev
        }
    }
}

/// Keeps the elements whose mask entry is set.
pub fn retain_mask<A>(v: Vec<A>, mask: &Vec<bool>) -> (r: Vec<A>)
    requires
        mask@.len() == v@.len(),
    ensures
        r@ == select(v@, mask@, v@.len() as int),
{
    let ghost orig = v@;
    let n = v.len();
    let mut v = v;
    let mut r: Vec<A> = Vec::new();
    let mut k: usize = 0;
    while k < n
        invariant
            0 <= k <= n,
            n == orig.len(),
            mask@.len() == n,
            v@ == orig.skip(k as int),
            r@ == select(orig, mask@, k as int),
        decreases n - k,
    {
        let x = v.remove(0);
        assert(x == orig[k as int]);
        if mask[k] {
            r.push(x);
        }
        assert(v@ =~= orig.skip(k + 1));
        k = k + 1;
    }
    r
}

// ---------------------------------------------------------------------------
// Which locals are referenced
// ---------------------------------------------------------------------------

pub open spec fn operand_uses(op: Operand, x: u32) -> bool {
    op == Operand::Local(x)
}

pub open spec fn opt_operand_uses(op: Option<Operand>, x: u32) -> bool {
    match op {
        Some(o) => operand_uses(o, x),
        None => false,
    }
}

/// Whether an instruction refers to local `x`.
pub open spec fn instruction_uses(inst: Instruction, x: u32) -> bool {
    match inst {
        Instruction::LocalGet { index } => index == x,
        Instruction::LocalSet { index, value } => index == x || operand_uses(value, x),
        Instruction::BinaryOp { left, right, .. } => operand_uses(left, x) || operand_uses(
            right,
            x,
        ),
        Instruction::UnaryOp { value, .. } => operand_uses(value, x),
        Instruction::MemoryLoad { address, .. } => operand_uses(address, x),
        Instruction::MemoryStore { address, value, .. } => operand_uses(address, x)
            || operand_uses(value, x),
        Instruction::Call { args, .. } => args@.contains(Operand::Local(x)),
        Instruction::Branch { condition, .. } => operand_uses(condition, x),
        Instruction::Return { value } => opt_operand_uses(value, x),
        Instruction::ExternRefCast { externref, .. } => operand_uses(externref, x),
        Instruction::LinearOp { value, .. } => operand_uses(value, x),
        Instruction::AliasingCheck { ptr1, ptr2 } => operand_uses(ptr1, x) || operand_uses(
            ptr2,
            x,
        ),
        Instruction::Nop => false,
    }
}

/// Whether a terminator refers to local `x`.
pub open spec fn terminator_uses(t: Terminator, x: u32) -> bool {
    match t {
        Terminator::Return { value } => opt_operand_uses(value, x),
        Terminator::Branch { condition, .. } => operand_uses(condition, x),
        Terminator::Switch { value, targets, .. } => operand_uses(value, x) || exists|i: int|
            0 <= i < targets@.len() && #[trigger] targets@[i].0 == Operand::Local(x),
        _ => false,
    }
}

/// Whether a block refers to local `x`.
pub open spec fn block_uses(b: BasicBlock, x: u32) -> bool {
    (exists|j: int| 0 <= j < b.instructions@.len() && instruction_uses(#[trigger] b.instructions@[j], x))
        || terminator_uses(b.terminator, x)
}

/// Whether the local with index `idx` is referenced anywhere in `bs`.
pub open spec fn index_used(bs: Seq<BasicBlock>, idx: int) -> bool {
    0 <= idx <= u32::MAX && exists|i: int| 0 <= i < bs.len() && block_uses(#[trigger] bs[i], idx as u32)
}

fn operand_uses_exec(op: Operand, x: u32) -> (r: bool)
    ensures
        r == operand_uses(op, x),
{
    match op {
        Operand::Local(i) => i == x,
        _ => false,
    }
}

fn opt_operand_uses_exec(op: Option<Operand>, x: u32) -> (r: bool)
    ensures
        r == opt_operand_uses(op, x),
{
    match op {
        Some(o) => operand_uses_exec(o, x),
        None => false,
    }
}

fn operands_contain_local(args: &Vec<Operand>, x: u32) -> (r: bool)
    ensures
        r == args@.contains(Operand::Local(x)),
{
    let mut i: usize = 0;
    while i < args.len()
        invariant
            0 <= i <= args@.len(),
            forall|k: int| 0 <= k < i ==> args@[k] != Operand::Local(x),
        decreases args@.len() - i,
    {
        if operand_uses_exec(args[i], x) {
            assert(args@[i as int] == Operand::Local(x));
            return true;
        }
        i = i + 1;
    }
    false
}

fn targets_contain_local(targets: &Vec<(Operand, BlockId)>, x: u32) -> (r: bool)
    ensures
        r == exists|i: int| 0 <= i < targets@.len() && #[trigger] targets@[i].0 == Operand::Local(x),
{
    let mut i: usize = 0;
    while i < targets.len()
        invariant
            0 <= i <= targets@.len(),
            forall|k: int| 0 <= k < i ==> targets@[k].0 != Operand::Local(x),
        decreases targets@.len() - i,
    {
        let (o, _) = targets[i];
        if operand_uses_exec(o, x) {
            assert(targets@[i as int].0 == Operand::Local(x));
            return true;
        }
        i = i + 1;
    }
    false
}

fn instruction_uses_exec(inst: &Instruction, x: u32) -> (r: bool)
    ensures
        r == instruction_uses(*inst, x),
{
    match inst {
        Instruction::LocalGet { index } => *index == x,
        Instruction::LocalSet { index, value } => *index == x || operand_uses_exec(*value, x),
        Instruction::BinaryOp { left, right, .. } => operand_uses_exec(*left, x)
            || operand_uses_exec(*right, x),
        Instruction::UnaryOp { value, .. } => operand_uses_exec(*value, x),
        Instruction::MemoryLoad { address, .. } => operand_uses_exec(*address, x),
        Instruction::MemoryStore { address, value, .. } => operand_uses_exec(*address, x)
            || operand_uses_exec(*value, x),
        Instruction::Call { args, .. } => operands_contain_local(args, x),
        Instruction::Branch { condition, .. } => operand_uses_exec(*condition, x),
        Instruction::Return { value } => opt_operand_uses_exec(*value, x),
        Instruction::ExternRefCast { externref, .. } => operand_uses_exec(*externref, x),
        Instruction::LinearOp { value, .. } => operand_uses_exec(*value, x),
        Instruction::AliasingCheck { ptr1, ptr2 } => operand_uses_exec(*ptr1, x)
            || operand_uses_exec(*ptr2, x),
        Instruction::Nop => false,
    }
}

fn terminator_uses_exec(t: &Terminator, x: u32) -> (r: bool)
    ensures
        r == terminator_uses(*t, x),
{
    match t {
        Terminator::Return { value } => opt_operand_uses_exec(*value, x),
        Terminator::Branch { condition, .. } => operand_uses_exec(*condition, x),
        Terminator::Switch { value, targets, .. } => operand_uses_exec(*value, x)
            || targets_contain_local(targets, x),
        _ => false,
    }
}

fn block_uses_exec(b: &BasicBlock, x: u32) -> (r: bool)
    ensures
        r == block_uses(*b, x),
{
    let mut j: usize = 0;
    while j < b.instructions.len()
        invariant
            0 <= j <= b.instructions@.len(),
            forall|k: int| 0 <= k < j ==> !instruction_uses(#[trigger] b.instructions@[k], x),
        decreases b.instructions@.len() - j,
    {
        if instruction_uses_exec(&b.instructions[j], x) {
            return true;
        }
        j = j + 1;
    }
    terminator_uses_exec(&b.terminator, x)
}

/// Whether local `x` is referenced in some block.
pub fn blocks_use_local(bs: &Vec<BasicBlock>, x: u32) -> (r: bool)
    ensures
        r == index_used(bs@, x as int),
{
    let mut i: usize = 0;
    while i < bs.len()
        invariant
            0 <= i <= bs@.len(),
            forall|k: int| 0 <= k < i ==> !block_uses(#[trigger] bs@[k], x),
        decreases bs@.len() - i,
    {
        if block_uses_exec(&bs[i], x) {
            return true;
        }
        i = i + 1;
    }
    false
}

// ---------------------------------------------------------------------------
// Dead code elimination
// ---------------------------------------------------------------------------

/// Which declared locals dead code elimination keeps: the local at position
/// `q` (index `p + q`, `p` parameters) is kept when that index is referenced.
pub open spec fn live_local_mask(w: WasmIR) -> Seq<bool> {
    Seq::new(
        w.locals@.len(),
        |q: int| index_used(w.basic_blocks@, w.signature.params@.len() + q),
    )
}

/// Which blocks dead code elimination keeps: those whose number is
/// reachable from the entry block.
pub open spec fn reachable_block_mask(bs: Seq<BasicBlock>) -> Seq<bool> {
    Seq::new(bs.len(), |i: int| reachable(bs, bs[i].id.0))
}

/// Name, signature, capabilities and annotations agree.
pub open spec fn same_header(a: WasmIR, b: WasmIR) -> bool {
    &&& b.name == a.name
    &&& b.signature == a.signature
    &&& b.capabilities == a.capabilities
    &&& b.ownership_annotations == a.ownership_annotations
}

/// `n` is `o` after dead code elimination: unreferenced declared locals
/// are dropped, then the blocks unreachable from the entry are dropped.
pub open spec fn dce_applied(o: WasmIR, n: WasmIR) -> bool {
    &&& same_header(o, n)
    &&& n.locals@ == select(o.locals@, live_local_mask(o), o.locals@.len() as int)
    &&& n.basic_blocks@ == select(
        o.basic_blocks@,
        reachable_block_mask(o.basic_blocks@),
        o.basic_blocks@.len() as int,
    )
}

/// `n` is `o` with constant folding applied to every instruction.
pub open spec fn fold_applied(o: WasmIR, n: WasmIR) -> bool {
    &&& same_header(o, n)
    &&& n.locals == o.locals
    &&& blocks_mapped(o.basic_blocks@, n.basic_blocks@, |x: Instruction| fold_instruction(x))
}

/// `n` is `o` with instruction selection applied to every instruction.
pub open spec fn select_applied(o: WasmIR, n: WasmIR) -> bool {
    &&& same_header(o, n)
    &&& n.locals == o.locals
    &&& blocks_mapped(o.basic_blocks@, n.basic_blocks@, |x: Instruction| select_instruction(x))
}

fn take_blocks(wasmir: &mut WasmIR) -> (r: Vec<BasicBlock>)
    ensures
        r == old(wasmir).basic_blocks,
        final(wasmir).basic_blocks@.len() == 0,
        same_header(*old(wasmir), *final(wasmir)),
        final(wasmir).locals == old(wasmir).locals,
{
    let mut r: Vec<BasicBlock> = Vec::new();
    std::mem::swap(&mut r, &mut wasmir.basic_blocks);
    r
}

fn take_locals(wasmir: &mut WasmIR) -> (r: Vec<Type>)
    ensures
        r == old(wasmir).locals,
        final(wasmir).locals@.len() == 0,
        same_header(*old(wasmir), *final(wasmir)),
        final(wasmir).basic_blocks == old(wasmir).basic_blocks,
{
    let mut r: Vec<Type> = Vec::new();
    std::mem::swap(&mut r, &mut wasmir.locals);
    r
}

/// Keeps the blocks whose number the traversal visited.
fn remove_unreachable_blocks(wasmir: &mut WasmIR)
    ensures
        same_header(*old(wasmir), *final(wasmir)),
        final(wasmir).locals == old(wasmir).locals,
        final(wasmir).basic_blocks@ == select(
            old(wasmir).basic_blocks@,
            reachable_block_mask(old(wasmir).basic_blocks@),
            old(wasmir).basic_blocks@.len() as int,
        ),
{
    let tr: Traversal = traverse(&wasmir.basic_blocks);
    let nb = wasmir.basic_blocks.len();
    let mut mask: Vec<bool> = Vec::new();
    let mut i: usize = 0;
    while i < nb
        invariant
            0 <= i <= nb,
            nb == wasmir.basic_blocks@.len(),
            traversal_correct(wasmir.basic_blocks@, tr),
            mask@.len() == i,
            forall|k: int| 0 <= k < i ==> mask@[k] == reachable_block_mask(wasmir.basic_blocks@)[k],
        decreases nb - i,
    {
        let keep = tr.is_visited(wasmir.basic_blocks[i].id.0);
        mask.push(keep);
        i = i + 1;
    }
    assert(mask@ =~= reachable_block_mask(wasmir.basic_blocks@));
    let blocks = take_blocks(wasmir);
    wasmir.basic_blocks = retain_mask(blocks, &mask);
}

/// Dead code elimination: drops the declared locals that no instruction or
/// terminator refers to, and the blocks not reachable from the entry block.
/// Remaining references are not renumbered.
pub fn eliminate_dead_code(wasmir: &mut WasmIR)
    ensures
        dce_applied(*old(wasmir), *final(wasmir)),
{
    let plen = wasmir.signature.params.len();
    let llen = wasmir.locals.len();
    let mut mask: Vec<bool> = Vec::new();
    let mut q: usize = 0;
    while q < llen
        invariant
            0 <= q <= llen,
            llen == wasmir.locals@.len(),
            plen == wasmir.signature.params@.len(),
            wasmir == old(wasmir),
            mask@.len() == q,
            forall|k: int| 0 <= k < q ==> mask@[k] == live_local_mask(*wasmir)[k],
        decreases llen - q,
    {
        let keep = if plen <= u32::MAX as usize && q <= u32::MAX as usize - plen {
            blocks_use_local(&wasmir.basic_blocks, (plen + q) as u32)
        } else {
            false
        };
        mask.push(keep);
        q = q + 1;
    }
    assert(mask@ =~= live_local_mask(*wasmir));
    let locals = take_locals(wasmir);
    wasmir.locals = retain_mask(locals, &mask);
    remove_unreachable_blocks(wasmir);
}

/// Constant folding over the whole function.
pub fn fold_function(wasmir: &mut WasmIR)
    ensures
        fold_applied(*old(wasmir), *final(wasmir)),
{
    fold_blocks(&mut wasmir.basic_blocks);
}

/// Instruction selection over the whole function.
pub fn select_function(wasmir: &mut WasmIR)
    ensures
        select_applied(*old(wasmir), *final(wasmir)),
{
    select_blocks(&mut wasmir.basic_blocks);
}

// ---------------------------------------------------------------------------
// The optimizer
// ---------------------------------------------------------------------------

/// The optimization passes, in the order the optimizer runs them.
#[derive(Debug, Clone, Copy, PartialEq, Eq, Structural)]
pub enum OptimizationPass {
    DeadCodeElimination,
    ConstantFolding,
    InstructionSelection,
}

impl OptimizationPass {
    /// The pass's name.
    pub fn name(&self) -> (r: &'static str)
        ensures
            r@ == pass_name(*self),
    {
        match self {
            OptimizationPass::DeadCodeElimination => "dead_code_elimination",
            OptimizationPass::ConstantFolding => "constant_folding",
            OptimizationPass::InstructionSelection => "instruction_selection",
        }
    }

    /// Runs the pass on a function; the passes cannot fail.
    pub fn apply(&self, wasmir: &mut WasmIR) -> (r: Result<(), String>)
        ensures
            r is Ok,
            pass_applied(*self, *old(wasmir), *final(wasmir)),
    {
        match self {
            OptimizationPass::DeadCodeElimination => eliminate_dead_code(wasmir),
            OptimizationPass::ConstantFolding => fold_function(wasmir),
            OptimizationPass::InstructionSelection => select_function(wasmir),
        }
        Ok(())
    }
}

/// The name of a pass.
pub open spec fn pass_name(p: OptimizationPass) -> Seq<char> {
    match p {
        OptimizationPass::DeadCodeElimination => "dead_code_elimination"@,
        OptimizationPass::ConstantFolding => "constant_folding"@,
        OptimizationPass::InstructionSelection => "instruction_selection"@,
    }
}

/// `n` is `o` after pass `p`.
pub open spec fn pass_applied(p: OptimizationPass, o: WasmIR, n: WasmIR) -> bool {
    match p {
        OptimizationPass::DeadCodeElimination => dce_applied(o, n),
        OptimizationPass::ConstantFolding => fold_applied(o, n),
        OptimizationPass::InstructionSelection => select_applied(o, n),
    }
}

/// `n` is `o` after the passes `ps[0..k]`, run in order.
pub open spec fn passes_applied(ps: Seq<OptimizationPass>, k: int, o: WasmIR, n: WasmIR) -> bool
    decreases k,
{
    if k <= 0 {
        n == o
    } else {
        exists|m: WasmIR| passes_applied(ps, k - 1, o, m) && #[trigger] pass_applied(ps[k - 1], m, n)
    }
}

/// WASM-specific optimizer running a fixed list of passes.
pub struct WasmOptimizer {
    optimization_passes: Vec<OptimizationPass>,
    enabled: bool,
}

impl WasmOptimizer {
    /// The passes, in order.
    pub closed spec fn passes(&self) -> Seq<OptimizationPass> {
        self.optimization_passes@
    }

    /// Whether the optimizer runs its passes.
    pub closed spec fn is_enabled(&self) -> bool {
        self.enabled
    }

    /// The standard pass list, in order.
    pub open spec fn standard_passes() -> Seq<OptimizationPass> {
        seq![
            OptimizationPass::DeadCodeElimination,
            OptimizationPass::ConstantFolding,
            OptimizationPass::InstructionSelection,
        ]
    }

    /// An enabled optimizer with dead code elimination, constant folding and
    /// instruction selection, in that order.
    pub fn new() -> (r: WasmOptimizer)
        ensures
            r.passes() == Self::standard_passes(),
            r.is_enabled(),
    {
        let mut optimization_passes: Vec<OptimizationPass> = Vec::new();
        optimization_passes.push(OptimizationPass::DeadCodeElimination);
        optimization_passes.push(OptimizationPass::ConstantFolding);
        optimization_passes.push(OptimizationPass::InstructionSelection);
        assert(optimization_passes@ =~= Self::standard_passes());
        WasmOptimizer { optimization_passes, enabled: true }
    }

    /// Runs every pass in order when enabled; leaves the function unchanged
    /// when disabled. The passes cannot fail, so the result is always `Ok`.
    pub fn apply_optimizations(&mut self, wasmir: &mut WasmIR) -> (r: Result<(), crate::backend::BackendError>)
        ensures
            r is Ok,
            *final(self) == *old(self),
            old(self).is_enabled() ==> passes_applied(
                old(self).passes(),
                old(self).passes().len() as int,
                *old(wasmir),
                *final(wasmir),
            ),
            !old(self).is_enabled() ==> *final(wasmir) == *old(wasmir),
    {
        if !self.enabled {
            return Ok(());
        }
        let n = self.optimization_passes.len();
        let mut i: usize = 0;
        while i < n
            invariant
                0 <= i <= n,
                n == self.optimization_passes@.len(),
                passes_applied(self.optimization_passes@, i as int, *old(wasmir), *wasmir),
            decreases n - i,
        {
            let ghost before = *wasmir;
            let pass = self.optimization_passes[i];
            let _ = pass.apply(wasmir);
            assert(passes_applied(self.optimization_passes@, i as int, *old(wasmir), before));
            assert(pass_applied(self.optimization_passes@[(i + 1) - 1], before, *wasmir));
            assert(passes_applied(self.optimization_passes@, i + 1, *old(wasmir), *wasmir));
            i = i + 1;
        }
        Ok(())
    }

    /// Enables or disables the optimizer.
    pub fn set_enabled(&mut self, enabled: bool)
        ensures
            final(self).is_enabled() == enabled,
            final(self).passes() == old(self).passes(),
    {
        self.enabled = enabled;
    }

    /// The names of the passes, in order.
    pub fn get_optimization_passes(&self) -> (r: Vec<&'static str>)
        ensures
            r@.len() == self.passes().len(),
            forall|k: int| 0 <= k < r@.len() ==> r@[k]@ == pass_name(self.passes()[k]),
    {
        let mut r: Vec<&'static str> = Vec::new();
        let mut i: usize = 0;
        while i < self.optimization_passes.len()
            invariant
                0 <= i <= self.optimization_passes@.len(),
                r@.len() == i,
                forall|k: int| 0 <= k < i ==> r@[k]@ == pass_name(self.optimization_passes@[k]),
            decreases self.optimization_passes@.len() - i,
        {
            r.push(self.optimization_passes[i].name());
            i = i + 1;
        }
        r
    }
}

/// A property of every masked-in element holds of every kept element.
pub proof fn lemma_select_all<A>(s: Seq<A>, keep: Seq<bool>, k: int, p: spec_fn(A) -> bool)
    requires
        0 <= k <= s.len(),
        forall|j: int| 0 <= j < k && keep[j] ==> p(#[trigger] s[j]),
    ensures
        forall|i: int| 0 <= i < select(s, keep, k).len() ==> p(#[trigger] select(s, keep, k)[i]),
    decreases k,
{
    if k > 0 {
        lemma_select_all(s, keep, k - 1, p);
        assert forall|i: int| 0 <= i < select(s, keep, k).len() implies p(
            #[trigger] select(s, keep, k)[i],
        ) by {
            if i < select(s, keep, k - 1).len() {
                assert(select(s, keep, k)[i] == select(s, keep, k - 1)[i]);
            } else {
                assert(select(s, keep, k)[i] == s[k - 1]);
            }
        }
    }
}

/// Every masked-in element is kept.
pub proof fn lemma_select_keeps<A>(s: Seq<A>, keep: Seq<bool>, k: int, j: int)
    requires
        0 <= j < k <= s.len(),
        keep[j],
    ensures
        select(s, keep, k).contains(s[j]),
    decreases k,
{
    if j < k - 1 {
        lemma_select_keeps(s, keep, k - 1, j);
        let prev = select(s, keep, k - 1);
        let t = choose|t: int| 0 <= t < prev.len() && prev[t] == s[j];
        if keep[k - 1] {
            assert(prev.push(s[k - 1])[t] == s[j]);
        }
    } else {
        let prev = select(s, keep, k - 1);
        assert(prev.push(s[k - 1])[prev.len() as int] == s[j]);
    }
}

/// Dead code elimination keeps exactly the blocks reachable from the entry
/// block: every block left is reachable, and every reachable block is left.
pub proof fn lemma_dce_keeps_reachable(o: WasmIR, n: WasmIR)
    requires
        dce_applied(o, n),
    ensures
        forall|i: int|
            0 <= i < n.basic_blocks@.len() ==> reachable(
                o.basic_blocks@,
                #[trigger] n.basic_blocks@[i].id.0,
            ),
        forall|j: int|
            0 <= j < o.basic_blocks@.len() && reachable(o.basic_blocks@, o.basic_blocks@[j].id.0)
                ==> n.basic_blocks@.contains(#[trigger] o.basic_blocks@[j]),
{
    let bs = o.basic_blocks@;
    let mask = reachable_block_mask(bs);
    let p = |b: BasicBlock| reachable(bs, b.id.0);
    assert forall|j: int| 0 <= j < bs.len() && mask[j] implies p(#[trigger] bs[j]) by {}
    lemma_select_all(bs, mask, bs.len() as int, p);
    assert forall|i: int| 0 <= i < n.basic_blocks@.len() implies reachable(
        bs,
        #[trigger] n.basic_blocks@[i].id.0,
    ) by {
        assert(p(n.basic_blocks@[i]));
    }
    assert forall|j: int|
        0 <= j < bs.len() && reachable(bs, bs[j].id.0) implies n.basic_blocks@.contains(
        #[trigger] bs[j],
    ) by {
        lemma_select_keeps(bs, mask, bs.len() as int, j);
    }
}

/// Block number `x` is named by the terminator `t`: the target of a jump,
/// either target of a branch, or the default or any target of a switch.
pub open spec fn names_block(t: Terminator, x: usize) -> bool {
    match t {
        Terminator::Jump { target } => target.0 == x,
        Terminator::Branch { then_block, else_block, .. } => then_block.0 == x || else_block.0 == x,
        Terminator::Switch { targets, default_target, .. } => default_target.0 == x || exists|k: int|
            0 <= k < targets@.len() && #[trigger] targets@[k].1.0 == x,
        _ => false,
    }
}

proof fn lemma_named_is_successor(t: Terminator, x: usize)
    requires
        names_block(t, x),
    ensures
        successors(t).contains(x),
{
    match t {
        Terminator::Jump { target } => {
            assert(successors(t)[0] == x);
        },
        Terminator::Branch { then_block, else_block, .. } => {
            if then_block.0 == x {
                assert(successors(t)[0] == x);
            } else {
                assert(successors(t)[1] == x);
            }
        },
        Terminator::Switch { targets, default_target, .. } => {
            if default_target.0 == x {
                assert(successors(t)[0] == x);
            } else {
                let k = choose|k: int| 0 <= k < targets@.len() && #[trigger] targets@[k].1.0 == x;
                assert(successors(t)[k + 1] == x);
            }
        },
        _ => {},
    }
}

/// Dead code elimination keeps the blocks that kept blocks may pass
/// control to: in a function whose blocks are numbered by their positions,
/// every block named by the terminator of a block left (the target of a
/// jump, both targets of a branch, the default and every target of a
/// switch) is left too.
pub proof fn lemma_dce_keeps_targets(o: WasmIR, n: WasmIR)
    requires
        dce_applied(o, n),
        forall|i: int| 0 <= i < o.basic_blocks@.len() ==> (#[trigger] o.basic_blocks@[i]).id.0 == i,
    ensures
        forall|t: int, j: int|
            0 <= t < n.basic_blocks@.len() && 0 <= j < o.basic_blocks@.len() && names_block(
                #[trigger] n.basic_blocks@[t].terminator,
                j as usize,
            ) ==> n.basic_blocks@.contains(#[trigger] o.basic_blocks@[j]),
{
    let bs = o.basic_blocks@;
    lemma_dce_keeps_reachable(o, n);
    let mask = reachable_block_mask(bs);
    let p = |b: BasicBlock| b.id.0 < bs.len() && bs[b.id.0 as int] == b;
    assert forall|j: int| 0 <= j < bs.len() && mask[j] implies p(#[trigger] bs[j]) by {}
    lemma_select_all(bs, mask, bs.len() as int, p);
    assert forall|t: int, j: int|
        0 <= t < n.basic_blocks@.len() && 0 <= j < bs.len() && names_block(
            #[trigger] n.basic_blocks@[t].terminator,
            j as usize,
        ) implies n.basic_blocks@.contains(#[trigger] bs[j]) by {
        let b = n.basic_blocks@[t];
        assert(p(b));
        let id = b.id.0;
        assert(reachable(bs, id));
        lemma_named_is_successor(b.terminator, j as usize);
        assert(steps(bs, id, j as usize));
        lemma_reachable_step(bs, id, j as usize);
        assert(bs[j].id.0 == j);
    }
}

} // verus!
