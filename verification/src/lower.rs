//! Direct lowering of a MIR body to WasmIR.
//!
//! Every MIR block becomes a WasmIR block. An assignment that moves a linear
//! value becomes an explicit `linear.consume`; any other assignment sets the
//! destination's root local to the lowered right-hand side. Returns, gotos
//! and integer switches keep their shape; other terminators become
//! `unreachable`. Right-hand sides other than a plain use, and constants,
//! lower to the placeholder `i32` zero.
use vstd::prelude::*;
use crate::linear::root_local;
use crate::mir_lowering::{
    is_linear, place_root, MirFunction, MirLocalDecl, MirOperand, MirRvalue, MirStatement, MirTerminator,
};
use crate::wasmir::{BlockId, Constant, Instruction, LinearOp, Operand, Signature, Terminator, WasmIR};
use std::collections::HashMap;

verus! {

broadcast use vstd::std_specs::hash::group_hash_axioms;

/// The operand a MIR operand lowers to: a place becomes its root local, a
/// constant the placeholder `i32` zero.
pub open spec fn operand_lowered(op: MirOperand) -> Operand {
    match op {
        MirOperand::Copy(p) => Operand::Local(place_root(*p)),
        MirOperand::Move(p) => Operand::Local(place_root(*p)),
        MirOperand::Constant(_) => Operand::Constant(Constant::I32(0)),
    }
}

/// The operand a right-hand side lowers to.
pub open spec fn rvalue_lowered(rv: MirRvalue) -> Operand {
    match rv {
        MirRvalue::Use(op) => operand_lowered(op),
        _ => Operand::Constant(Constant::I32(0)),
    }
}

/// The right-hand side moves a value out of a local declared with a linear
/// type.
pub open spec fn linear_move(rv: MirRvalue, decls: Seq<MirLocalDecl>) -> bool {
    match rv {
        MirRvalue::Use(MirOperand::Move(p)) => place_root(*p) < decls.len() && is_linear(
            decls[place_root(*p) as int].ty,
        ),
        _ => false,
    }
}

/// The instructions a statement lowers to.
pub open spec fn statement_lowered(st: MirStatement, decls: Seq<MirLocalDecl>) -> Seq<Instruction> {
    match st {
        MirStatement::Assign(dest, rv) => if linear_move(rv, decls) {
            seq![Instruction::LinearOp { op: LinearOp::Consume, value: rvalue_lowered(rv) }]
        } else {
            seq![Instruction::LocalSet { index: place_root(dest), value: rvalue_lowered(rv) }]
        },
        _ => Seq::empty(),
    }
}

/// The instructions a block's statements lower to, in order.
pub open spec fn statements_lowered(s: Seq<MirStatement>, decls: Seq<MirLocalDecl>) -> Seq<Instruction>
    decreases s.len(),
{
    if s.len() == 0 {
        Seq::empty()
    } else {
        statements_lowered(s.drop_last(), decls) + statement_lowered(s.last(), decls)
    }
}

/// Every block a terminator names is mapped.
pub open spec fn targets_mapped(t: MirTerminator, m: Map<u32, BlockId>) -> bool {
    match t {
        MirTerminator::Goto { target } => m.contains_key(target),
        MirTerminator::SwitchInt { discr, targets, otherwise } => m.contains_key(otherwise) && forall|
            i: int,
        |
            0 <= i < targets@.len() ==> m.contains_key(#[trigger] targets@[i].1),
        _ => true,
    }
}

/// `w` is the lowering of the terminator `t` with the block map `m`.
pub open spec fn terminator_lowered(t: MirTerminator, w: Terminator, m: Map<u32, BlockId>) -> bool {
    match t {
        MirTerminator::Return => w == Terminator::Return { value: None },
        MirTerminator::Goto { target } => w == Terminator::Jump { target: m[target] },
        MirTerminator::SwitchInt { discr, targets, otherwise } => match w {
            Terminator::Switch { value, targets: wt, default_target } => {
                &&& value == operand_lowered(discr)
                &&& default_target == m[otherwise]
                &&& wt@.len() == targets@.len()
                &&& forall|i: int|
                    0 <= i < targets@.len() ==> #[trigger] wt@[i] == (
                        Operand::Constant(Constant::I64(targets@[i].0 as i64)),
                        m[targets@[i].1],
                    )
            },
            _ => false,
        },
        _ => w == Terminator::Unreachable,
    }
}

/// The block map after `n` MIR blocks were given the WasmIR blocks
/// `base .. base + n`.
pub open spec fn blocks_numbered(m: Map<u32, BlockId>, base: nat, n: nat) -> Map<u32, BlockId>
    decreases n,
{
    if n == 0 {
        m
    } else {
        blocks_numbered(m, base, (n - 1) as nat).insert(
            (n - 1) as u32,
            BlockId((base + n - 1) as usize),
        )
    }
}

/// The map that names each MIR block `i < n` by the WasmIR block `i`.
pub open spec fn first_blocks(n: nat) -> Map<u32, BlockId> {
    Map::new(|k: u32| k < n, |k: u32| BlockId(k as usize))
}

proof fn lemma_numbered_from_empty(n: nat)
    requires
        n <= u32::MAX + 1,
    ensures
        blocks_numbered(Map::empty(), 0, n) == first_blocks(n),
    decreases n,
{
    if n > 0 {
        lemma_numbered_from_empty((n - 1) as nat);
        assert(blocks_numbered(Map::empty(), 0, n) =~= first_blocks(n));
    }
}

/// The MIR body's blocks lowered into the function's blocks `base ..`
/// with the block map `m`.
pub open spec fn blocks_lowered(body: MirFunction, f: WasmIR, base: nat, m: Map<u32, BlockId>) -> bool {
    forall|i: int|
        0 <= i < body.basic_blocks@.len() ==> {
            let b = #[trigger] f.basic_blocks@[base + i];
            &&& b.id == BlockId((base + i) as usize)
            &&& b.instructions@ == statements_lowered(
                body.basic_blocks@[i].statements@,
                body.local_decls@,
            )
            &&& terminator_lowered(body.basic_blocks@[i].terminator, b.terminator, m)
        }
}

/// The state of a lowering: the function built so far and the map from
/// MIR block numbers to WasmIR blocks.
pub struct LoweringContext {
    wasmir_func: WasmIR,
    block_map: HashMap<u32, BlockId>,
}

impl LoweringContext {
    /// The function built so far.
    pub closed spec fn function(&self) -> WasmIR {
        self.wasmir_func
    }

    /// The block map.
    pub closed spec fn blocks(&self) -> Map<u32, BlockId> {
        self.block_map@
    }

    /// A context with an empty function named `function_name`, without
    /// parameters or result, and an empty block map.
    pub fn new() -> (r: LoweringContext)
        ensures
            r.function().name@ == "function_name"@,
            r.function().signature.params@.len() == 0,
            r.function().signature.returns is None,
            r.function().locals@.len() == 0,
            r.function().basic_blocks@.len() == 0,
            r.function().capabilities@.len() == 0,
            r.function().ownership_annotations@.len() == 0,
            r.blocks() == Map::<u32, BlockId>::empty(),
    {
        let signature = Signature { params: Vec::new(), returns: None };
        LoweringContext {
            wasmir_func: WasmIR::new("function_name".to_string(), signature),
            block_map: HashMap::new(),
        }
    }

    /// Lowers a MIR body: one new block per MIR block (the MIR block
    /// number `i` names the `i`-th new block), then each block's statements
    /// and terminator.
    pub fn lower_body(&mut self, body: &MirFunction)
        requires
            body.basic_blocks@.len() <= u32::MAX,
            old(self).function().basic_blocks@.len() + body.basic_blocks@.len() <= usize::MAX,
            forall|i: int|
                0 <= i < body.basic_blocks@.len() ==> targets_mapped(
                    #[trigger] body.basic_blocks@[i].terminator,
                    blocks_numbered(
                        old(self).blocks(),
                        old(self).function().basic_blocks@.len(),
                        body.basic_blocks@.len(),
                    ),
                ),
        ensures
            ({
                let base = old(self).function().basic_blocks@.len();
                let m = blocks_numbered(old(self).blocks(), base, body.basic_blocks@.len());
                &&& final(self).blocks() == m
                &&& final(self).function().basic_blocks@.len() == base + body.basic_blocks@.len()
                &&& forall|i: int|
                    0 <= i < base ==> #[trigger] final(self).function().basic_blocks@[i]
                        == old(self).function().basic_blocks@[i]
                &&& blocks_lowered(*body, final(self).function(), base, m)
            }),
            final(self).function().name == old(self).function().name,
            final(self).function().signature == old(self).function().signature,
            final(self).function().locals == old(self).function().locals,
            final(self).function().capabilities == old(self).function().capabilities,
            final(self).function().ownership_annotations == old(self).function().ownership_annotations,
    {
        let ghost base = self.wasmir_func.basic_blocks@.len();
        let ghost m0 = self.block_map@;
        let n = body.basic_blocks.len();
        let mut k: usize = 0;
        while k < n
            invariant
                0 <= k <= n,
                n == body.basic_blocks@.len(),
                n <= u32::MAX,
                base + n <= usize::MAX,
                self.wasmir_func.basic_blocks@.len() == base + k,
                self.block_map@ == blocks_numbered(m0, base, k as nat),
                forall|i: int|
                    0 <= i < base ==> #[trigger] self.wasmir_func.basic_blocks@[i]
                        == old(self).wasmir_func.basic_blocks@[i],
                forall|i: int|
                    base <= i < base + k ==> (#[trigger] self.wasmir_func.basic_blocks@[i]).id
                        == BlockId(i as usize),
                self.wasmir_func.name == old(self).wasmir_func.name,
                self.wasmir_func.signature == old(self).wasmir_func.signature,
                self.wasmir_func.locals == old(self).wasmir_func.locals,
                self.wasmir_func.capabilities == old(self).wasmir_func.capabilities,
                self.wasmir_func.ownership_annotations == old(self).wasmir_func.ownership_annotations,
            decreases n - k,
        {
            let id = self.wasmir_func.add_basic_block(Vec::new(), Terminator::Unreachable);
            self.block_map.insert(k as u32, id);
            k = k + 1;
        }
        let ghost m = self.block_map@;
        let mut j: usize = 0;
        while j < n
            invariant
                0 <= j <= n,
                n == body.basic_blocks@.len(),
                n <= u32::MAX,
                base + n <= usize::MAX,
                self.block_map@ == m,
                m == blocks_numbered(m0, base, n as nat),
                self.wasmir_func.basic_blocks@.len() == base + n,
                forall|i: int|
                    0 <= i < base ==> #[trigger] self.wasmir_func.basic_blocks@[i]
                        == old(self).wasmir_func.basic_blocks@[i],
                forall|i: int|
                    base <= i < base + n ==> (#[trigger] self.wasmir_func.basic_blocks@[i]).id
                        == BlockId(i as usize),
                forall|i: int|
                    0 <= i < n ==> targets_mapped(#[trigger] body.basic_blocks@[i].terminator, m),
                forall|i: int|
                    0 <= i < j ==> {
                        let b = #[trigger] self.wasmir_func.basic_blocks@[base + i];
                        &&& b.instructions@ == statements_lowered(
                            body.basic_blocks@[i].statements@,
                            body.local_decls@,
                        )
                        &&& terminator_lowered(body.basic_blocks@[i].terminator, b.terminator, m)
                    },
                self.wasmir_func.name == old(self).wasmir_func.name,
                self.wasmir_func.signature == old(self).wasmir_func.signature,
                self.wasmir_func.locals == old(self).wasmir_func.locals,
                self.wasmir_func.capabilities == old(self).wasmir_func.capabilities,
                self.wasmir_func.ownership_annotations == old(self).wasmir_func.ownership_annotations,
            decreases n - j,
        {
            proof {
                lemma_blocks_numbered(m0, base, n as nat, j as nat);
            }
            self.lower_block(j as u32, body);
            j = j + 1;
        }
    }

    /// Lowers the MIR block `b` of `body` into the WasmIR block it maps to.
    fn lower_block(&mut self, b: u32, body: &MirFunction)
        requires
            b < body.basic_blocks@.len(),
            old(self).block_map@.contains_key(b),
            old(self).block_map@[b].0 < old(self).wasmir_func.basic_blocks@.len(),
            targets_mapped(body.basic_blocks@[b as int].terminator, old(self).block_map@),
        ensures
            ({
                let at = old(self).block_map@[b].0 as int;
                let nb = final(self).wasmir_func.basic_blocks@[at];
                &&& final(self).wasmir_func.basic_blocks@ == old(self).wasmir_func.basic_blocks@.update(
                    at,
                    nb,
                )
                &&& nb.id == old(self).wasmir_func.basic_blocks@[at].id
                &&& nb.instructions@ == statements_lowered(
                    body.basic_blocks@[b as int].statements@,
                    body.local_decls@,
                )
                &&& terminator_lowered(body.basic_blocks@[b as int].terminator, nb.terminator, old(self).block_map@)
            }),
            final(self).block_map@ == old(self).block_map@,
            final(self).wasmir_func.name == old(self).wasmir_func.name,
            final(self).wasmir_func.signature == old(self).wasmir_func.signature,
            final(self).wasmir_func.locals == old(self).wasmir_func.locals,
            final(self).wasmir_func.capabilities == old(self).wasmir_func.capabilities,
            final(self).wasmir_func.ownership_annotations == old(self).wasmir_func.ownership_annotations,
    {
        let at = self.lookup(b);
        let block = &body.basic_blocks[b as usize];
        let mut instructions: Vec<Instruction> = Vec::new();
        let mut i: usize = 0;
        while i < block.statements.len()
            invariant
                0 <= i <= block.statements@.len(),
                instructions@ == statements_lowered(block.statements@.take(i as int), body.local_decls@),
            decreases block.statements@.len() - i,
        {
            let mut more = lower_statement(&block.statements[i], body);
            proof {
                assert(block.statements@.take(i as int + 1).drop_last() =~= block.statements@.take(
                    i as int,
                ));
                assert(block.statements@.take(i as int + 1).last() == block.statements@[i as int]);
            }
            instructions.append(&mut more);
            i = i + 1;
        }
        proof {
            assert(block.statements@.take(block.statements@.len() as int) =~= block.statements@);
        }
        let terminator = self.lower_terminator(&block.terminator);
        let id = self.wasmir_func.basic_blocks[at.0].id;
        self.wasmir_func.basic_blocks.set(
            at.0,
            crate::wasmir::BasicBlock { id, instructions, terminator },
        );
    }

    /// The WasmIR block a mapped MIR block number names.
    fn lookup(&self, b: u32) -> (r: BlockId)
        requires
            self.block_map@.contains_key(b),
        ensures
            r == self.block_map@[b],
    {
        *self.block_map.get(&b).unwrap()
    }

    /// Lowers a terminator.
    fn lower_terminator(&self, terminator: &MirTerminator) -> (r: Terminator)
        requires
            targets_mapped(*terminator, self.block_map@),
        ensures
            terminator_lowered(*terminator, r, self.block_map@),
    {
        match terminator {
            MirTerminator::Return => Terminator::Return { value: None },
            MirTerminator::Goto { target } => Terminator::Jump { target: self.lookup(*target) },
            MirTerminator::SwitchInt { discr, targets, otherwise } => {
                let value = lower_operand(discr);
                let mut wt: Vec<(Operand, BlockId)> = Vec::new();
                let mut i: usize = 0;
                while i < targets.len()
                    invariant
                        0 <= i <= targets@.len(),
                        wt@.len() == i,
                        forall|k: int| 0 <= k < targets@.len() ==> self.block_map@.contains_key(
                            #[trigger] targets@[k].1,
                        ),
                        forall|k: int|
                            0 <= k < i ==> #[trigger] wt@[k] == (
                                Operand::Constant(Constant::I64(targets@[k].0 as i64)),
                                self.block_map@[targets@[k].1],
                            ),
                    decreases targets@.len() - i,
                {
                    let (v, t) = targets[i];
                    let id = self.lookup(t);
                    wt.push((Operand::Constant(Constant::I64(v as i64)), id));
                    i = i + 1;
                }
                let default_target = self.lookup(*otherwise);
                Terminator::Switch { value, targets: wt, default_target }
            },
            _ => Terminator::Unreachable,
        }
    }

    /// The function built.
    pub fn finish(self) -> (r: WasmIR)
        ensures
            r == self.function(),
    {
        self.wasmir_func
    }
}

proof fn lemma_blocks_numbered(m0: Map<u32, BlockId>, base: nat, n: nat, j: nat)
    requires
        j < n,
        n <= u32::MAX + 1,
    ensures
        blocks_numbered(m0, base, n).contains_key(j as u32),
        blocks_numbered(m0, base, n)[j as u32] == BlockId((base + j) as usize),
    decreases n,
{
    if j + 1 < n {
        lemma_blocks_numbered(m0, base, (n - 1) as nat, j);
    }
}

/// Lowers a statement: a move of a linear value becomes `linear.consume`,
/// another assignment a `local.set` of the destination's root local.
pub fn lower_statement(statement: &MirStatement, body: &MirFunction) -> (r: Vec<Instruction>)
    ensures
        r@ == statement_lowered(*statement, body.local_decls@),
{
    let mut instructions: Vec<Instruction> = Vec::new();
    match statement {
        MirStatement::Assign(dest, rvalue) => {
            if is_linear_move(rvalue, body) {
                instructions.push(
                    Instruction::LinearOp { op: LinearOp::Consume, value: lower_rvalue(rvalue) },
                );
            } else {
                let value = lower_rvalue(rvalue);
                instructions.push(Instruction::LocalSet { index: lower_place(dest), value });
            }
        },
        _ => {},
    }
    proof {
        assert(instructions@ =~= statement_lowered(*statement, body.local_decls@));
    }
    instructions
}

/// The root local of a place.
fn lower_place(p: &crate::mir_lowering::MirPlace) -> (r: u32)
    ensures
        r == place_root(*p),
{
    root_local(p)
}

/// Lowers a right-hand side to an operand.
pub fn lower_rvalue(rvalue: &MirRvalue) -> (r: Operand)
    ensures
        r == rvalue_lowered(*rvalue),
{
    match rvalue {
        MirRvalue::Use(operand) => lower_operand(operand),
        _ => Operand::Constant(Constant::I32(0)),
    }
}

/// Lowers an operand.
pub fn lower_operand(operand: &MirOperand) -> (r: Operand)
    ensures
        r == operand_lowered(*operand),
{
    match operand {
        MirOperand::Copy(place) => Operand::Local(root_local(place)),
        MirOperand::Move(place) => Operand::Local(root_local(place)),
        MirOperand::Constant(_) => Operand::Constant(Constant::I32(0)),
    }
}

/// Whether a right-hand side moves a value out of a local declared with a
/// linear type.
pub fn is_linear_move(rvalue: &MirRvalue, body: &MirFunction) -> (r: bool)
    ensures
        r == linear_move(*rvalue, body.local_decls@),
{
    match rvalue {
        MirRvalue::Use(MirOperand::Move(place)) => {
            let l = root_local(place);
            (l as usize) < body.local_decls.len() && crate::linear::is_linear_type(
                &body.local_decls[l as usize].ty,
            )
        },
        _ => false,
    }
}

/// Lowers a MIR body to a WasmIR function named `function_name`, without
/// parameters or result: the MIR block `i` becomes the block `i`.
pub fn lower_mir_to_wasmir(mir_body: &MirFunction) -> (r: WasmIR)
    requires
        mir_body.basic_blocks@.len() <= u32::MAX,
        forall|i: int|
            0 <= i < mir_body.basic_blocks@.len() ==> targets_mapped(
                #[trigger] mir_body.basic_blocks@[i].terminator,
                first_blocks(mir_body.basic_blocks@.len()),
            ),
    ensures
        r.name@ == "function_name"@,
        r.signature.params@.len() == 0,
        r.signature.returns is None,
        r.locals@.len() == 0,
        r.capabilities@.len() == 0,
        r.ownership_annotations@.len() == 0,
        r.basic_blocks@.len() == mir_body.basic_blocks@.len(),
        blocks_lowered(*mir_body, r, 0, first_blocks(mir_body.basic_blocks@.len())),
{
    proof {
        lemma_numbered_from_empty(mir_body.basic_blocks@.len());
    }
    let mut context = LoweringContext::new();
    context.lower_body(mir_body);
    context.finish()
}

} // verus!
