//! WasmIR: the explicit intermediate representation between Rust MIR and the
//! WebAssembly backends.
//!
//! A function holds its signature, the types of its declared locals, a list of
//! basic blocks and two kinds of metadata: the capabilities it needs from the
//! host and ownership annotations for linear values. Local indices count the
//! parameters first, so a function with `p` parameters and `l` declared locals
//! accepts the indices `0 .. p + l`. A block is named by its position in the
//! block list.
use vstd::prelude::*;
use crate::text::{concat, decimal, to_decimal};
use vstd::string::StringExecFns;

verus! {

/// WasmIR value and reference types.
#[derive(Debug, PartialEq)]
pub enum Type {
    I32,
    I64,
    F32,
    F64,
    /// An opaque host reference, tagged with the host type's name.
    ExternRef(String),
    FuncRef,
    /// A pointer into linear memory.
    Pointer(Box<Type>),
    Array { element_type: Box<Type>, size: Option<u32> },
    Struct { fields: Vec<Type> },
    Void,
}

/// Function signature.
#[derive(Debug, PartialEq)]
pub struct Signature {
    pub params: Vec<Type>,
    pub returns: Option<Type>,
}

/// Basic block identifier: the position of the block in the function.
#[derive(Debug, Clone, Copy, PartialEq, Eq, Structural)]
pub struct BlockId(pub usize);

/// Compile-time constants. Floating-point constants are carried by their
/// IEEE-754 bit patterns.
#[derive(Debug, Clone, Copy, PartialEq, Eq, Structural)]
pub enum Constant {
    I32(i32),
    I64(i64),
    /// Bits of an `f32` value.
    F32(u32),
    /// Bits of an `f64` value.
    F64(u64),
    Boolean(bool),
}

/// Instruction operands.
#[derive(Debug, Clone, Copy, PartialEq, Eq, Structural)]
pub enum Operand {
    /// A local variable (parameters first).
    Local(u32),
    Constant(Constant),
    /// A value on the operand stack, counted from the top.
    StackValue(u32),
}

/// Binary operators (32-bit signed semantics in the encoder).
#[derive(Debug, Clone, Copy, PartialEq, Eq, Structural)]
pub enum BinaryOp {
    Add,
    Sub,
    Mul,
    Div,
    Mod,
    And,
    Or,
    Xor,
    Shl,
    Shr,
    Eq,
    Ne,
    Lt,
    Le,
    Gt,
    Ge,
}

/// Unary operators.
#[derive(Debug, Clone, Copy, PartialEq, Eq, Structural)]
pub enum UnaryOp {
    Neg,
    Not,
}

/// Operations on linear values.
#[derive(Debug, Clone, Copy, PartialEq, Eq, Structural)]
pub enum LinearOp {
    /// `linear.consume`: ends the lifetime of a linear value.
    Consume,
}

/// WasmIR instructions.
#[derive(Debug, PartialEq)]
pub enum Instruction {
    LocalGet { index: u32 },
    LocalSet { index: u32, value: Operand },
    BinaryOp { op: BinaryOp, left: Operand, right: Operand },
    UnaryOp { op: UnaryOp, value: Operand },
    MemoryLoad { address: Operand, ty: Type, align: Option<u32>, offset: u32 },
    MemoryStore { address: Operand, value: Operand, ty: Type, align: Option<u32>, offset: u32 },
    Call { func_ref: u32, args: Vec<Operand> },
    Branch { condition: Operand, then_block: BlockId, else_block: BlockId },
    Return { value: Option<Operand> },
    ExternRefCast { externref: Operand, target_type: Type },
    LinearOp { op: LinearOp, value: Operand },
    /// `invariant.check.aliasing`: the two pointers do not alias.
    AliasingCheck { ptr1: Operand, ptr2: Operand },
    Nop,
}

/// Block terminators.
#[derive(Debug, PartialEq)]
pub enum Terminator {
    Return { value: Option<Operand> },
    Jump { target: BlockId },
    Branch { condition: Operand, then_block: BlockId, else_block: BlockId },
    Switch { value: Operand, targets: Vec<(Operand, BlockId)>, default_target: BlockId },
    Unreachable,
}

/// A basic block.
#[derive(Debug, PartialEq)]
pub struct BasicBlock {
    pub id: BlockId,
    pub instructions: Vec<Instruction>,
    pub terminator: Terminator,
}

/// Host capabilities that a function requires.
#[derive(Debug, Clone, Copy, PartialEq, Eq, Structural)]
pub enum Capability {
    JsInterop,
    Threading,
    SharedMemory,
    ComponentModel,
}

/// Ownership state of a local holding a linear value.
#[derive(Debug, Clone, Copy, PartialEq, Eq, Structural)]
pub enum OwnershipState {
    Owned,
    Borrowed,
    Moved,
    Consumed,
}

/// A source position.
#[derive(Debug, Clone, PartialEq)]
pub struct SourceLocation {
    pub file: String,
    pub line: u32,
    pub column: u32,
}

/// An ownership fact about a local at a source position.
#[derive(Debug, Clone, PartialEq)]
pub struct OwnershipAnnotation {
    pub variable: u32,
    pub state: OwnershipState,
    pub source_location: SourceLocation,
}

/// Errors reported by [`WasmIR::validate`].
#[derive(Debug, PartialEq)]
pub enum ValidationError {
    /// A local index at or beyond the number of parameters and locals.
    InvalidLocalIndex(u32),
    /// A block reference beyond the block list; the text names the role of
    /// the reference (`jump_target`, `branch_then`, `branch_else`,
    /// `switch_target` or `switch_default`).
    InvalidBlockId(String),
}

/// The role of a block reference, used to describe a bad one.
#[derive(Debug, Clone, Copy, PartialEq, Eq, Structural)]
pub enum BlockRole {
    JumpTarget,
    BranchThen,
    BranchElse,
    SwitchTarget,
    SwitchDefault,
}

/// The first defect that validation meets.
#[derive(Debug, Clone, Copy, PartialEq, Eq, Structural)]
pub enum Fault {
    Local(u32),
    Block(BlockRole),
}

/// A WasmIR function.
#[derive(Debug, PartialEq)]
pub struct WasmIR {
    pub name: String,
    pub signature: Signature,
    /// Types of the declared locals. Parameters are not among them: they
    /// are described by the signature and take the indices `0 .. p`, and
    /// the declared local at position `q` has the index `p + q` (see
    /// [`WasmIR::add_local`]). So every entry here is a local of its own,
    /// and the code section declares each of them (none is skipped as a
    /// parameter).
    pub locals: Vec<Type>,
    pub basic_blocks: Vec<BasicBlock>,
    /// Required capabilities, each listed once.
    pub capabilities: Vec<Capability>,
    pub ownership_annotations: Vec<OwnershipAnnotation>,
}

// ---------------------------------------------------------------------------
// Specification of validation
// ---------------------------------------------------------------------------

/// The text that names a block role.
pub open spec fn role_text(r: BlockRole) -> Seq<char> {
    match r {
        BlockRole::JumpTarget => "jump_target"@,
        BlockRole::BranchThen => "branch_then"@,
        BlockRole::BranchElse => "branch_else"@,
        BlockRole::SwitchTarget => "switch_target"@,
        BlockRole::SwitchDefault => "switch_default"@,
    }
}

/// The first of two optional faults.
pub open spec fn first_of(a: Option<Fault>, b: Option<Fault>) -> Option<Fault> {
    if a is Some {
        a
    } else {
        b
    }
}

/// Fault of a local index, `n` being the number of valid indices.
pub open spec fn local_fault(i: u32, n: nat) -> Option<Fault> {
    if i < n {
        None
    } else {
        Some(Fault::Local(i))
    }
}

/// Fault of a block reference, `nb` being the number of blocks.
pub open spec fn block_fault(b: BlockId, role: BlockRole, nb: nat) -> Option<Fault> {
    if b.0 < nb {
        None
    } else {
        Some(Fault::Block(role))
    }
}

pub open spec fn operand_fault(op: Operand, n: nat) -> Option<Fault> {
    match op {
        Operand::Local(i) => local_fault(i, n),
        _ => None,
    }
}

pub open spec fn opt_operand_fault(op: Option<Operand>, n: nat) -> Option<Fault> {
    match op {
        Some(o) => operand_fault(o, n),
        None => None,
    }
}

/// First fault among the first `k` operands.
pub open spec fn operands_fault_upto(s: Seq<Operand>, n: nat, k: int) -> Option<Fault>
    decreases k,
{
    if k <= 0 {
        None
    } else {
        first_of(operands_fault_upto(s, n, k - 1), operand_fault(s[k - 1], n))
    }
}

pub open spec fn operands_fault(s: Seq<Operand>, n: nat) -> Option<Fault> {
    operands_fault_upto(s, n, s.len() as int)
}

pub open spec fn instruction_fault(inst: Instruction, n: nat, nb: nat) -> Option<Fault> {
    match inst {
        Instruction::LocalGet { index } => local_fault(index, n),
        Instruction::LocalSet { index, value } => first_of(
            local_fault(index, n),
            operand_fault(value, n),
        ),
        Instruction::BinaryOp { left, right, .. } => first_of(
            operand_fault(left, n),
            operand_fault(right, n),
        ),
        Instruction::UnaryOp { value, .. } => operand_fault(value, n),
        Instruction::MemoryLoad { address, .. } => operand_fault(address, n),
        Instruction::MemoryStore { address, value, .. } => first_of(
            operand_fault(address, n),
            operand_fault(value, n),
        ),
        Instruction::Call { args, .. } => operands_fault(args@, n),
        Instruction::Branch { condition, then_block, else_block } => first_of(
            operand_fault(condition, n),
            first_of(
                block_fault(then_block, BlockRole::BranchThen, nb),
                block_fault(else_block, BlockRole::BranchElse, nb),
            ),
        ),
        Instruction::Return { value } => opt_operand_fault(value, n),
        Instruction::ExternRefCast { externref, .. } => operand_fault(externref, n),
        Instruction::LinearOp { value, .. } => operand_fault(value, n),
        Instruction::AliasingCheck { ptr1, ptr2 } => first_of(
            operand_fault(ptr1, n),
            operand_fault(ptr2, n),
        ),
        Instruction::Nop => None,
    }
}

/// First fault among the first `k` switch targets.
pub open spec fn targets_fault_upto(s: Seq<(Operand, BlockId)>, n: nat, nb: nat, k: int) -> Option<
    Fault,
>
    decreases k,
{
    if k <= 0 {
        None
    } else {
        first_of(
            targets_fault_upto(s, n, nb, k - 1),
            first_of(
                operand_fault(s[k - 1].0, n),
                block_fault(s[k - 1].1, BlockRole::SwitchTarget, nb),
            ),
        )
    }
}

pub open spec fn terminator_fault(t: Terminator, n: nat, nb: nat) -> Option<Fault> {
    match t {
        Terminator::Return { value } => opt_operand_fault(value, n),
        Terminator::Jump { target } => block_fault(target, BlockRole::JumpTarget, nb),
        Terminator::Branch { condition, then_block, else_block } => first_of(
            operand_fault(condition, n),
            first_of(
                block_fault(then_block, BlockRole::BranchThen, nb),
                block_fault(else_block, BlockRole::BranchElse, nb),
            ),
        ),
        Terminator::Switch { value, targets, default_target } => first_of(
            operand_fault(value, n),
            first_of(
                targets_fault_upto(targets@, n, nb, targets@.len() as int),
                block_fault(default_target, BlockRole::SwitchDefault, nb),
            ),
        ),
        Terminator::Unreachable => None,
    }
}

/// First fault among the first `k` instructions.
pub open spec fn instructions_fault_upto(s: Seq<Instruction>, n: nat, nb: nat, k: int) -> Option<
    Fault,
>
    decreases k,
{
    if k <= 0 {
        None
    } else {
        first_of(instructions_fault_upto(s, n, nb, k - 1), instruction_fault(s[k - 1], n, nb))
    }
}

pub open spec fn basic_block_fault(b: BasicBlock, n: nat, nb: nat) -> Option<Fault> {
    first_of(
        instructions_fault_upto(b.instructions@, n, nb, b.instructions@.len() as int),
        terminator_fault(b.terminator, n, nb),
    )
}

/// First fault among the first `k` blocks.
pub open spec fn blocks_fault_upto(s: Seq<BasicBlock>, n: nat, nb: nat, k: int) -> Option<Fault>
    decreases k,
{
    if k <= 0 {
        None
    } else {
        first_of(blocks_fault_upto(s, n, nb, k - 1), basic_block_fault(s[k - 1], n, nb))
    }
}

/// Whether a validation result reports exactly the fault `f` (or success
/// when there is none).
pub open spec fn reports(r: Result<(), ValidationError>, f: Option<Fault>) -> bool {
    match f {
        None => r is Ok,
        Some(Fault::Local(i)) => r == Err::<(), ValidationError>(
            ValidationError::InvalidLocalIndex(i),
        ),
        Some(Fault::Block(role)) => r matches Err(ValidationError::InvalidBlockId(s)) && s@
            == role_text(role),
    }
}

impl WasmIR {
    /// Number of valid local indices: parameters plus declared locals.
    pub open spec fn local_count(&self) -> nat {
        self.signature.params@.len() + self.locals@.len()
    }

    /// The first defect of the function, in block order and, within a block,
    /// instruction order followed by the terminator.
    pub open spec fn fault(&self) -> Option<Fault> {
        blocks_fault_upto(
            self.basic_blocks@,
            self.local_count(),
            self.basic_blocks@.len(),
            self.basic_blocks@.len() as int,
        )
    }

    /// A function is well formed when validation finds no defect.
    pub open spec fn well_formed(&self) -> bool {
        self.fault() is None
    }

    /// Creates an empty function with the given name and signature.
    pub fn new(name: String, signature: Signature) -> (r: WasmIR)
        ensures
            r.name == name,
            r.signature == signature,
            r.locals@.len() == 0,
            r.basic_blocks@.len() == 0,
            r.capabilities@.len() == 0,
            r.ownership_annotations@.len() == 0,
    {
        WasmIR {
            name,
            signature,
            locals: Vec::new(),
            basic_blocks: Vec::new(),
            capabilities: Vec::new(),
            ownership_annotations: Vec::new(),
        }
    }

    /// Declares a new local and returns its index (parameters come first).
    pub fn add_local(&mut self, ty: Type) -> (index: u32)
        requires
            old(self).local_count() < u32::MAX,
        ensures
            index == old(self).local_count(),
            final(self).locals@ == old(self).locals@.push(ty),
            final(self).name == old(self).name,
            final(self).signature == old(self).signature,
            final(self).basic_blocks == old(self).basic_blocks,
            final(self).capabilities == old(self).capabilities,
            final(self).ownership_annotations == old(self).ownership_annotations,
    {
        let index = (self.signature.params.len() + self.locals.len()) as u32;
        self.locals.push(ty);
        index
    }

    /// Appends a basic block and returns its identifier (its position).
    pub fn add_basic_block(&mut self, instructions: Vec<Instruction>, terminator: Terminator) -> (id:
        BlockId)
        ensures
            id.0 == old(self).basic_blocks@.len(),
            final(self).basic_blocks@ == old(self).basic_blocks@.push(
                BasicBlock { id, instructions, terminator },
            ),
            final(self).name == old(self).name,
            final(self).signature == old(self).signature,
            final(self).locals == old(self).locals,
            final(self).capabilities == old(self).capabilities,
            final(self).ownership_annotations == old(self).ownership_annotations,
    {
        let id = BlockId(self.basic_blocks.len());
        self.basic_blocks.push(BasicBlock { id, instructions, terminator });
        id
    }

    /// Records a required capability; a capability already present is not
    /// listed twice.
    pub fn add_capability(&mut self, capability: Capability)
        ensures
            final(self).capabilities@ == (if old(self).capabilities@.contains(capability) {
                old(self).capabilities@
            } else {
                old(self).capabilities@.push(capability)
            }),
            final(self).name == old(self).name,
            final(self).signature == old(self).signature,
            final(self).locals == old(self).locals,
            final(self).basic_blocks == old(self).basic_blocks,
            final(self).ownership_annotations == old(self).ownership_annotations,
    {
        if !contains_capability(&self.capabilities, capability) {
            self.capabilities.push(capability);
        }
    }

    /// Appends an ownership annotation.
    pub fn add_ownership_annotation(&mut self, annotation: OwnershipAnnotation)
        ensures
            final(self).ownership_annotations@ == old(self).ownership_annotations@.push(
                annotation,
            ),
            final(self).name == old(self).name,
            final(self).signature == old(self).signature,
            final(self).locals == old(self).locals,
            final(self).basic_blocks == old(self).basic_blocks,
            final(self).capabilities == old(self).capabilities,
    {
        self.ownership_annotations.push(annotation);
    }

    /// Checks every local index and block reference, and reports the first
    /// defect.
    pub fn validate(&self) -> (r: Result<(), ValidationError>)
        ensures
            reports(r, self.fault()),
    {
        let plen = self.signature.params.len();
        let llen = self.locals.len();
        let nb = self.basic_blocks.len();
        let ghost n = self.local_count();
        let mut i: usize = 0;
        while i < nb
            invariant
                0 <= i <= nb,
                nb == self.basic_blocks@.len(),
                plen + llen == n,
                n == self.local_count(),
                blocks_fault_upto(self.basic_blocks@, n, nb as nat, i as int) is None,
            decreases nb - i,
        {
            let f = basic_block_fault_exec(&self.basic_blocks[i], plen, llen, nb);
            if let Some(fault) = f {
                proof {
                    lemma_blocks_fault_stable(self.basic_blocks@, n, nb as nat, i + 1, nb as int);
                }
                return report_fault(fault);
            }
            i = i + 1;
        }
        Ok(())
    }

    /// All instructions of the function, block after block.
    pub open spec fn instruction_seq(&self) -> Seq<Instruction> {
        instructions_of_blocks(self.basic_blocks@, self.basic_blocks@.len() as int)
    }

    /// References to all instructions, block after block, in order.
    pub fn all_instructions(&self) -> (r: Vec<&Instruction>)
        ensures
            r@.len() == self.instruction_seq().len(),
            forall|k: int| 0 <= k < r@.len() ==> *r@[k] == self.instruction_seq()[k],
    {
        let mut r: Vec<&Instruction> = Vec::new();
        let nb = self.basic_blocks.len();
        let mut i: usize = 0;
        while i < nb
            invariant
                0 <= i <= nb,
                nb == self.basic_blocks@.len(),
                r@.len() == instructions_of_blocks(self.basic_blocks@, i as int).len(),
                forall|k: int|
                    0 <= k < r@.len() ==> *r@[k] == instructions_of_blocks(
                        self.basic_blocks@,
                        i as int,
                    )[k],
            decreases nb - i,
        {
            let block = &self.basic_blocks[i];
            let m = block.instructions.len();
            let ghost before = instructions_of_blocks(self.basic_blocks@, i as int);
            let mut j: usize = 0;
            while j < m
                invariant
                    0 <= j <= m,
                    m == block.instructions@.len(),
                    r@.len() == before.len() + j,
                    forall|k: int| 0 <= k < before.len() ==> *r@[k] == before[k],
                    forall|k: int| 0 <= k < j ==> *r@[before.len() + k] == block.instructions@[k],
                decreases m - j,
            {
                r.push(&block.instructions[j]);
                j = j + 1;
            }
            proof {
                let after = instructions_of_blocks(self.basic_blocks@, i + 1);
                assert(after == before + block.instructions@);
                assert forall|k: int| 0 <= k < r@.len() implies *r@[k] == after[k] by {
                    if k >= before.len() {
                        assert(*r@[before.len() + (k - before.len())] == block.instructions@[k
                            - before.len()]);
                    }
                }
            }
            i = i + 1;
        }
        r
    }
}

/// Concatenation of the instructions of the first `k` blocks.
pub open spec fn instructions_of_blocks(s: Seq<BasicBlock>, k: int) -> Seq<Instruction>
    decreases k,
{
    if k <= 0 {
        Seq::empty()
    } else {
        instructions_of_blocks(s, k - 1) + s[k - 1].instructions@
    }
}

/// Whether a capability list holds the given capability.
pub fn contains_capability(caps: &Vec<Capability>, c: Capability) -> (r: bool)
    ensures
        r == caps@.contains(c),
{
    let mut i: usize = 0;
    while i < caps.len()
        invariant
            0 <= i <= caps@.len(),
            forall|k: int| 0 <= k < i ==> caps@[k] != c,
        decreases caps@.len() - i,
    {
        if caps[i] == c {
            return true;
        }
        i = i + 1;
    }
    false
}

proof fn lemma_operands_fault_stable(s: Seq<Operand>, n: nat, k: int, k2: int)
    requires
        0 <= k <= k2,
        operands_fault_upto(s, n, k) is Some,
    ensures
        operands_fault_upto(s, n, k2) == operands_fault_upto(s, n, k),
    decreases k2,
{
    if k2 > k {
        lemma_operands_fault_stable(s, n, k, k2 - 1);
    }
}

proof fn lemma_targets_fault_stable(s: Seq<(Operand, BlockId)>, n: nat, nb: nat, k: int, k2: int)
    requires
        0 <= k <= k2,
        targets_fault_upto(s, n, nb, k) is Some,
    ensures
        targets_fault_upto(s, n, nb, k2) == targets_fault_upto(s, n, nb, k),
    decreases k2,
{
    if k2 > k {
        lemma_targets_fault_stable(s, n, nb, k, k2 - 1);
    }
}

proof fn lemma_instructions_fault_stable(s: Seq<Instruction>, n: nat, nb: nat, k: int, k2: int)
    requires
        0 <= k <= k2,
        instructions_fault_upto(s, n, nb, k) is Some,
    ensures
        instructions_fault_upto(s, n, nb, k2) == instructions_fault_upto(s, n, nb, k),
    decreases k2,
{
    if k2 > k {
        lemma_instructions_fault_stable(s, n, nb, k, k2 - 1);
    }
}

proof fn lemma_blocks_fault_stable(s: Seq<BasicBlock>, n: nat, nb: nat, k: int, k2: int)
    requires
        0 <= k <= k2,
        blocks_fault_upto(s, n, nb, k) is Some,
    ensures
        blocks_fault_upto(s, n, nb, k2) == blocks_fault_upto(s, n, nb, k),
    decreases k2,
{
    if k2 > k {
        lemma_blocks_fault_stable(s, n, nb, k, k2 - 1);
    }
}

fn report_fault(f: Fault) -> (r: Result<(), ValidationError>)
    ensures
        reports(r, Some(f)),
{
    match f {
        Fault::Local(i) => Err(ValidationError::InvalidLocalIndex(i)),
        Fault::Block(role) => Err(ValidationError::InvalidBlockId(role_name(role))),
    }
}

/// The text that names a block role.
pub fn role_name(r: BlockRole) -> (s: String)
    ensures
        s@ == role_text(r),
{
    match r {
        BlockRole::JumpTarget => String::from_str("jump_target"),
        BlockRole::BranchThen => String::from_str("branch_then"),
        BlockRole::BranchElse => String::from_str("branch_else"),
        BlockRole::SwitchTarget => String::from_str("switch_target"),
        BlockRole::SwitchDefault => String::from_str("switch_default"),
    }
}

fn local_fault_exec(i: u32, plen: usize, llen: usize) -> (r: Option<Fault>)
    ensures
        r == local_fault(i, (plen + llen) as nat),
{
    let iu = i as usize;
    if iu < plen || iu - plen < llen {
        None
    } else {
        Some(Fault::Local(i))
    }
}

fn block_fault_exec(b: BlockId, role: BlockRole, nb: usize) -> (r: Option<Fault>)
    ensures
        r == block_fault(b, role, nb as nat),
{
    if b.0 < nb {
        None
    } else {
        Some(Fault::Block(role))
    }
}

fn operand_fault_exec(op: Operand, plen: usize, llen: usize) -> (r: Option<Fault>)
    ensures
        r == operand_fault(op, (plen + llen) as nat),
{
    match op {
        Operand::Local(i) => local_fault_exec(i, plen, llen),
        _ => None,
    }
}

fn opt_operand_fault_exec(op: Option<Operand>, plen: usize, llen: usize) -> (r: Option<Fault>)
    ensures
        r == opt_operand_fault(op, (plen + llen) as nat),
{
    match op {
        Some(o) => operand_fault_exec(o, plen, llen),
        None => None,
    }
}

fn first_of_exec(a: Option<Fault>, b: Option<Fault>) -> (r: Option<Fault>)
    ensures
        r == first_of(a, b),
{
    if a.is_some() {
        a
    } else {
        b
    }
}

fn operands_fault_exec(s: &Vec<Operand>, plen: usize, llen: usize) -> (r: Option<Fault>)
    ensures
        r == operands_fault(s@, (plen + llen) as nat),
{
    let ghost n = (plen + llen) as nat;
    let mut i: usize = 0;
    while i < s.len()
        invariant
            0 <= i <= s@.len(),
            n == plen + llen,
            operands_fault_upto(s@, n, i as int) is None,
        decreases s@.len() - i,
    {
        let f = operand_fault_exec(s[i], plen, llen);
        if f.is_some() {
            proof {
                lemma_operands_fault_stable(s@, n, i + 1, s@.len() as int);
            }
            return f;
        }
        i = i + 1;
    }
    None
}

fn targets_fault_exec(s: &Vec<(Operand, BlockId)>, plen: usize, llen: usize, nb: usize) -> (r:
    Option<Fault>)
    ensures
        r == targets_fault_upto(s@, (plen + llen) as nat, nb as nat, s@.len() as int),
{
    let ghost n = (plen + llen) as nat;
    let mut i: usize = 0;
    while i < s.len()
        invariant
            0 <= i <= s@.len(),
            n == plen + llen,
            targets_fault_upto(s@, n, nb as nat, i as int) is None,
        decreases s@.len() - i,
    {
        let (o, b) = s[i];
        let f = first_of_exec(
            operand_fault_exec(o, plen, llen),
            block_fault_exec(b, BlockRole::SwitchTarget, nb),
        );
        if f.is_some() {
            proof {
                lemma_targets_fault_stable(s@, n, nb as nat, i + 1, s@.len() as int);
            }
            return f;
        }
        i = i + 1;
    }
    None
}

fn instruction_fault_exec(inst: &Instruction, plen: usize, llen: usize, nb: usize) -> (r: Option<
    Fault,
>)
    ensures
        r == instruction_fault(*inst, (plen + llen) as nat, nb as nat),
{
    match inst {
        Instruction::LocalGet { index } => local_fault_exec(*index, plen, llen),
        Instruction::LocalSet { index, value } => first_of_exec(
            local_fault_exec(*index, plen, llen),
            operand_fault_exec(*value, plen, llen),
        ),
        Instruction::BinaryOp { left, right, .. } => first_of_exec(
            operand_fault_exec(*left, plen, llen),
            operand_fault_exec(*right, plen, llen),
        ),
        Instruction::UnaryOp { value, .. } => operand_fault_exec(*value, plen, llen),
        Instruction::MemoryLoad { address, .. } => operand_fault_exec(*address, plen, llen),
        Instruction::MemoryStore { address, value, .. } => first_of_exec(
            operand_fault_exec(*address, plen, llen),
            operand_fault_exec(*value, plen, llen),
        ),
        Instruction::Call { args, .. } => operands_fault_exec(args, plen, llen),
        Instruction::Branch { condition, then_block, else_block } => first_of_exec(
            operand_fault_exec(*condition, plen, llen),
            first_of_exec(
                block_fault_exec(*then_block, BlockRole::BranchThen, nb),
                block_fault_exec(*else_block, BlockRole::BranchElse, nb),
            ),
        ),
        Instruction::Return { value } => opt_operand_fault_exec(*value, plen, llen),
        Instruction::ExternRefCast { externref, .. } => operand_fault_exec(*externref, plen, llen),
        Instruction::LinearOp { value, .. } => operand_fault_exec(*value, plen, llen),
        Instruction::AliasingCheck { ptr1, ptr2 } => first_of_exec(
            operand_fault_exec(*ptr1, plen, llen),
            operand_fault_exec(*ptr2, plen, llen),
        ),
        Instruction::Nop => None,
    }
}

fn terminator_fault_exec(t: &Terminator, plen: usize, llen: usize, nb: usize) -> (r: Option<Fault>)
    ensures
        r == terminator_fault(*t, (plen + llen) as nat, nb as nat),
{
    match t {
        Terminator::Return { value } => opt_operand_fault_exec(*value, plen, llen),
        Terminator::Jump { target } => block_fault_exec(*target, BlockRole::JumpTarget, nb),
        Terminator::Branch { condition, then_block, else_block } => first_of_exec(
            operand_fault_exec(*condition, plen, llen),
            first_of_exec(
                block_fault_exec(*then_block, BlockRole::BranchThen, nb),
                block_fault_exec(*else_block, BlockRole::BranchElse, nb),
            ),
        ),
        Terminator::Switch { value, targets, default_target } => first_of_exec(
            operand_fault_exec(*value, plen, llen),
            first_of_exec(
                targets_fault_exec(targets, plen, llen, nb),
                block_fault_exec(*default_target, BlockRole::SwitchDefault, nb),
            ),
        ),
        Terminator::Unreachable => None,
    }
}

fn basic_block_fault_exec(b: &BasicBlock, plen: usize, llen: usize, nb: usize) -> (r: Option<Fault>)
    ensures
        r == basic_block_fault(*b, (plen + llen) as nat, nb as nat),
{
    let ghost n = (plen + llen) as nat;
    let m = b.instructions.len();
    let mut i: usize = 0;
    while i < m
        invariant
            0 <= i <= m,
            m == b.instructions@.len(),
            n == plen + llen,
            instructions_fault_upto(b.instructions@, n, nb as nat, i as int) is None,
        decreases m - i,
    {
        let f = instruction_fault_exec(&b.instructions[i], plen, llen, nb);
        if f.is_some() {
            proof {
                lemma_instructions_fault_stable(b.instructions@, n, nb as nat, i + 1, m as int);
            }
            return f;
        }
        i = i + 1;
    }
    terminator_fault_exec(&b.terminator, plen, llen, nb)
}

/// The text of a validation error.
pub open spec fn error_text(e: ValidationError) -> Seq<char> {
    match e {
        ValidationError::InvalidLocalIndex(i) => "invalid local index "@ + decimal(i as nat),
        ValidationError::InvalidBlockId(role) => "invalid block id for "@ + role@,
    }
}

/// The text of a validation fault.
pub open spec fn fault_text(f: Fault) -> Seq<char> {
    match f {
        Fault::Local(i) => "invalid local index "@ + decimal(i as nat),
        Fault::Block(role) => "invalid block id for "@ + role_text(role),
    }
}

/// The message of a failed validation.
pub fn validation_message(e: &ValidationError) -> (r: String)
    ensures
        r@ == "WasmIR validation failed: "@ + error_text(*e),
{
    match e {
        ValidationError::InvalidLocalIndex(i) => {
            let mut s = concat("WasmIR validation failed: ", "invalid local index ");
            let d = to_decimal(*i as u64);
            s.append(d.as_str());
            s
        },
        ValidationError::InvalidBlockId(role) => {
            let mut s = concat("WasmIR validation failed: ", "invalid block id for ");
            s.append(role.as_str());
            s
        },
    }
}

/// No capability is listed twice.
pub open spec fn capabilities_distinct(s: Seq<Capability>) -> bool {
    forall|i: int, j: int| 0 <= i < j < s.len() ==> s[i] != s[j]
}

/// Recording capabilities never lists one twice: adding a capability to a
/// list without repetition (as [`WasmIR::add_capability`] does) gives a list
/// without repetition that holds it.
pub proof fn lemma_add_capability_distinct(caps: Seq<Capability>, c: Capability)
    requires
        capabilities_distinct(caps),
    ensures
        capabilities_distinct(
            if caps.contains(c) {
                caps
            } else {
                caps.push(c)
            },
        ),
        (if caps.contains(c) {
            caps
        } else {
            caps.push(c)
        }).contains(c),
{
    if !caps.contains(c) {
        let n = caps.push(c);
        assert(n[caps.len() as int] == c);
        assert forall|i: int, j: int| 0 <= i < j < n.len() implies n[i] != n[j] by {
            if j == caps.len() {
                assert(n[i] == caps[i]);
                if n[i] == c {
                    assert(caps.contains(c));
                }
            }
        }
    }
}

// ---------------------------------------------------------------------------
// What a successful validation guarantees
// ---------------------------------------------------------------------------

/// An operand that is a local names one of the `n` valid indices.
pub open spec fn operand_in_range(op: Operand, n: nat) -> bool {
    op matches Operand::Local(i) ==> i < n
}

/// Every local index an instruction names is below `n`, and every block it
/// names is below `nb`.
pub open spec fn instruction_references_valid(inst: Instruction, n: nat, nb: nat) -> bool {
    match inst {
        Instruction::LocalGet { index } => index < n,
        Instruction::LocalSet { index, value } => index < n && operand_in_range(value, n),
        Instruction::BinaryOp { left, right, .. } => operand_in_range(left, n) && operand_in_range(
            right,
            n,
        ),
        Instruction::UnaryOp { value, .. } => operand_in_range(value, n),
        Instruction::MemoryLoad { address, .. } => operand_in_range(address, n),
        Instruction::MemoryStore { address, value, .. } => operand_in_range(address, n)
            && operand_in_range(value, n),
        Instruction::Call { args, .. } => forall|k: int|
            0 <= k < args@.len() ==> operand_in_range(#[trigger] args@[k], n),
        Instruction::Branch { condition, then_block, else_block } => operand_in_range(condition, n)
            && then_block.0 < nb && else_block.0 < nb,
        Instruction::Return { value } => (value matches Some(o) ==> operand_in_range(o, n)),
        Instruction::ExternRefCast { externref, .. } => operand_in_range(externref, n),
        Instruction::LinearOp { value, .. } => operand_in_range(value, n),
        Instruction::AliasingCheck { ptr1, ptr2 } => operand_in_range(ptr1, n) && operand_in_range(
            ptr2,
            n,
        ),
        Instruction::Nop => true,
    }
}

/// Every local index a terminator names is below `n`, and every block it
/// names (a jump target, both branch targets, every switch target and the
/// default) is below `nb`.
pub open spec fn terminator_references_valid(t: Terminator, n: nat, nb: nat) -> bool {
    match t {
        Terminator::Return { value } => (value matches Some(o) ==> operand_in_range(o, n)),
        Terminator::Jump { target } => target.0 < nb,
        Terminator::Branch { condition, then_block, else_block } => operand_in_range(condition, n)
            && then_block.0 < nb && else_block.0 < nb,
        Terminator::Switch { value, targets, default_target } => operand_in_range(value, n)
            && default_target.0 < nb && forall|k: int|
            0 <= k < targets@.len() ==> operand_in_range(#[trigger] targets@[k].0, n)
                && targets@[k].1.0 < nb,
        Terminator::Unreachable => true,
    }
}

proof fn lemma_blocks_fault_none(s: Seq<BasicBlock>, n: nat, nb: nat, k: int)
    requires
        0 <= k <= s.len(),
        blocks_fault_upto(s, n, nb, k) is None,
    ensures
        forall|i: int| 0 <= i < k ==> (#[trigger] basic_block_fault(s[i], n, nb)) is None,
    decreases k,
{
    if k > 0 {
        lemma_blocks_fault_none(s, n, nb, k - 1);
    }
}

proof fn lemma_instructions_fault_none(s: Seq<Instruction>, n: nat, nb: nat, k: int)
    requires
        0 <= k <= s.len(),
        instructions_fault_upto(s, n, nb, k) is None,
    ensures
        forall|i: int| 0 <= i < k ==> (#[trigger] instruction_fault(s[i], n, nb)) is None,
    decreases k,
{
    if k > 0 {
        lemma_instructions_fault_none(s, n, nb, k - 1);
    }
}

proof fn lemma_operands_fault_none(s: Seq<Operand>, n: nat, k: int)
    requires
        0 <= k <= s.len(),
        operands_fault_upto(s, n, k) is None,
    ensures
        forall|i: int| 0 <= i < k ==> operand_in_range(#[trigger] s[i], n),
    decreases k,
{
    if k > 0 {
        lemma_operands_fault_none(s, n, k - 1);
        assert(operand_fault(s[k - 1], n) is None);
    }
}

proof fn lemma_targets_fault_none(s: Seq<(Operand, BlockId)>, n: nat, nb: nat, k: int)
    requires
        0 <= k <= s.len(),
        targets_fault_upto(s, n, nb, k) is None,
    ensures
        forall|i: int| 0 <= i < k ==> operand_in_range(#[trigger] s[i].0, n) && s[i].1.0 < nb,
    decreases k,
{
    if k > 0 {
        lemma_targets_fault_none(s, n, nb, k - 1);
        assert(operand_fault(s[k - 1].0, n) is None);
        assert(block_fault(s[k - 1].1, BlockRole::SwitchTarget, nb) is None);
    }
}

proof fn lemma_instruction_fault_none(inst: Instruction, n: nat, nb: nat)
    requires
        instruction_fault(inst, n, nb) is None,
    ensures
        instruction_references_valid(inst, n, nb),
{
    match inst {
        Instruction::Call { args, .. } => {
            lemma_operands_fault_none(args@, n, args@.len() as int);
        },
        _ => {},
    }
}

proof fn lemma_terminator_fault_none(t: Terminator, n: nat, nb: nat)
    requires
        terminator_fault(t, n, nb) is None,
    ensures
        terminator_references_valid(t, n, nb),
{
    match t {
        Terminator::Switch { targets, .. } => {
            lemma_targets_fault_none(targets@, n, nb, targets@.len() as int);
        },
        _ => {},
    }
}

/// A function that validates refers only to what exists: every local
/// index named by an instruction or a terminator is below the number of
/// parameters plus declared locals, and every block named (by a branch
/// instruction, a jump, both targets of a branch, every target and the
/// default of a switch) is below the number of blocks.
pub proof fn lemma_valid_function_references(w: WasmIR, r: Result<(), ValidationError>)
    requires
        reports(r, w.fault()),
        r is Ok,
    ensures
        forall|b: int|
            0 <= b < w.basic_blocks@.len() ==> terminator_references_valid(
                (#[trigger] w.basic_blocks@[b]).terminator,
                w.local_count(),
                w.basic_blocks@.len(),
            ),
        forall|b: int, i: int|
            0 <= b < w.basic_blocks@.len() && 0 <= i < w.basic_blocks@[b].instructions@.len()
                ==> instruction_references_valid(
                #[trigger] w.basic_blocks@[b].instructions@[i],
                w.local_count(),
                w.basic_blocks@.len(),
            ),
{
    let s = w.basic_blocks@;
    let n = w.local_count();
    let nb = s.len();
    assert(w.fault() is None);
    lemma_blocks_fault_none(s, n, nb, nb as int);
    assert forall|b: int| 0 <= b < s.len() implies terminator_references_valid(
        (#[trigger] s[b]).terminator,
        n,
        nb,
    ) by {
        assert(basic_block_fault(s[b], n, nb) is None);
        lemma_terminator_fault_none(s[b].terminator, n, nb);
    }
    assert forall|b: int, i: int|
        0 <= b < s.len() && 0 <= i < s[b].instructions@.len() implies instruction_references_valid(
        #[trigger] s[b].instructions@[i],
        n,
        nb,
    ) by {
        assert(basic_block_fault(s[b], n, nb) is None);
        let is = s[b].instructions@;
        lemma_instructions_fault_none(is, n, nb, is.len() as int);
        assert(instruction_fault(is[i], n, nb) is None);
        lemma_instruction_fault_none(is[i], n, nb);
    }
}

} // verus!
