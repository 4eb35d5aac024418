//! Lowering of a MIR function to WasmIR.
//!
//! The MIR model is a small, self-contained copy of the parts of rustc's MIR
//! that the lowering reads. Lowering keeps Rust's ownership facts: locals of
//! a linear type (`ExternRef`, `FuncRef`) are tracked as owned, moved or
//! consumed, and every change is recorded as an ownership annotation on the
//! produced function. Host capabilities detected on the way (JavaScript
//! interop for `ExternRef`) are attached to the function as well.
//!
//! The context keeps its mappings between calls: a local or block number
//! seen in an earlier function still resolves to what it was mapped to
//! unless the current function maps it again.
use vstd::prelude::*;
use crate::wasmir::{
    fault_text, reports, validation_message, BasicBlock, BinaryOp, BlockId, Capability, Constant,
    Fault, Instruction, Operand, OwnershipAnnotation, OwnershipState, Signature, SourceLocation,
    Terminator, Type, UnaryOp, WasmIR,
};
use crate::text::{decimal, numbered, to_decimal};
use std::collections::HashMap;
use vstd::string::StringExecFns;

verus! {

broadcast use vstd::std_specs::hash::group_hash_axioms;

// ---------------------------------------------------------------------------
// The MIR model
// ---------------------------------------------------------------------------

/// A MIR function.
#[derive(Debug)]
pub struct MirFunction {
    pub name: String,
    pub signature: MirSignature,
    pub basic_blocks: Vec<MirBasicBlock>,
    pub local_decls: Vec<MirLocalDecl>,
    pub source_info: MirSourceInfo,
}

/// Parameter and result types of a MIR function.
#[derive(Debug)]
pub struct MirSignature {
    pub inputs: Vec<MirType>,
    pub output: MirType,
}

/// A MIR basic block.
#[derive(Debug)]
pub struct MirBasicBlock {
    pub statements: Vec<MirStatement>,
    pub terminator: MirTerminator,
}

/// A declared MIR local.
#[derive(Debug)]
pub struct MirLocalDecl {
    pub ty: MirType,
    pub source_info: MirSourceInfo,
}

/// Source information of a MIR item.
#[derive(Debug, Clone)]
pub struct MirSourceInfo {
    pub span: MirSpan,
}

/// A source position.
#[derive(Debug, Clone)]
pub struct MirSpan {
    pub filename: String,
    pub line: u32,
    pub column: u32,
}

/// MIR types.
#[derive(Debug)]
pub enum MirType {
    I32,
    I64,
    F32,
    F64,
    Bool,
    Ref(Box<MirType>),
    ExternRef(String),
    FuncRef,
    Array(Box<MirType>, u32),
    Struct(Vec<MirType>),
    Unit,
}

/// MIR statements.
#[derive(Debug)]
pub enum MirStatement {
    Assign(MirPlace, MirRvalue),
    StorageLive(u32),
    StorageDead(u32),
    Nop,
}

/// Right-hand sides of MIR assignments.
#[derive(Debug)]
pub enum MirRvalue {
    Use(MirOperand),
    BinaryOp(MirBinOp, MirOperand, MirOperand),
    UnaryOp(MirUnOp, MirOperand),
    Cast(MirOperand, MirType),
    Ref(MirOperand),
    Len(MirOperand),
}

/// MIR block terminators; block targets are block numbers.
#[derive(Debug)]
pub enum MirTerminator {
    Return,
    Goto { target: u32 },
    SwitchInt { discr: MirOperand, targets: Vec<(i32, u32)>, otherwise: u32 },
    Call { func: MirOperand, args: Vec<MirOperand>, destination: Option<(MirPlace, u32)> },
    Unreachable,
}

/// MIR places.
#[derive(Debug)]
pub enum MirPlace {
    Local(u32),
    Projection(Box<MirPlace>, Box<MirProjection>),
}

/// MIR place projections.
#[derive(Debug)]
pub enum MirProjection {
    Deref,
    Field(u32),
    Index(Box<MirOperand>),
}

/// MIR operands.
#[derive(Debug)]
pub enum MirOperand {
    Copy(Box<MirPlace>),
    Move(Box<MirPlace>),
    Constant(MirConstant),
}

/// MIR constants. Floating-point constants are carried by their IEEE-754
/// bit patterns.
#[derive(Debug, Clone, Copy, PartialEq, Eq, Structural)]
pub enum MirConstant {
    I32(i32),
    I64(i64),
    /// Bits of an `f32` value.
    F32(u32),
    /// Bits of an `f64` value.
    F64(u64),
    Bool(bool),
    Unit,
}

/// MIR binary operators.
#[derive(Debug, Clone, Copy, PartialEq, Eq, Structural)]
pub enum MirBinOp {
    Add,
    Sub,
    Mul,
    Div,
    Rem,
    BitXor,
    BitAnd,
    BitOr,
    Shl,
    Shr,
    Eq,
    Lt,
    Le,
    Ne,
    Ge,
    Gt,
}

/// MIR unary operators.
#[derive(Debug, Clone, Copy, PartialEq, Eq, Structural)]
pub enum MirUnOp {
    Not,
    Neg,
}

// ---------------------------------------------------------------------------
// Pure conversions
// ---------------------------------------------------------------------------

/// `t` is the WasmIR type of the MIR type `mt`: booleans become `i32`,
/// references become pointers, unit becomes `void`, and the other types
/// keep their shape.
pub open spec fn type_from_mir(mt: MirType, t: Type) -> bool
    decreases mt,
{
    match mt {
        MirType::I32 => t is I32,
        MirType::I64 => t is I64,
        MirType::F32 => t is F32,
        MirType::F64 => t is F64,
        MirType::Bool => t is I32,
        MirType::ExternRef(n) => t matches Type::ExternRef(s) && s@ == n@,
        MirType::FuncRef => t is FuncRef,
        MirType::Ref(inner) => t matches Type::Pointer(b) && type_from_mir(*inner, *b),
        MirType::Array(el, size) => t matches Type::Array { element_type, size: sz } && sz == Some(
            size,
        ) && type_from_mir(*el, *element_type),
        MirType::Struct(fs) => t matches Type::Struct { fields } && fields@.len() == fs@.len()
            && forall|i: int|
            #![trigger fields@[i]]
            0 <= i < fs@.len() ==> type_from_mir(fs@[i], fields@[i]),
        MirType::Unit => t is Void,
    }
}

/// `sig` is the WasmIR signature of `ms`: the parameter types converted in
/// order, and no result for a unit output.
pub open spec fn signature_from_mir(ms: MirSignature, sig: Signature) -> bool {
    &&& sig.params@.len() == ms.inputs@.len()
    &&& forall|i: int|
        #![trigger sig.params@[i]]
        0 <= i < ms.inputs@.len() ==> type_from_mir(ms.inputs@[i], sig.params@[i])
    &&& match ms.output {
        MirType::Unit => sig.returns is None,
        _ => sig.returns matches Some(t) && type_from_mir(ms.output, t),
    }
}

/// The WasmIR constant of a MIR constant (unit is `0`).
pub open spec fn constant_from_mir(c: MirConstant) -> Constant {
    match c {
        MirConstant::I32(v) => Constant::I32(v),
        MirConstant::I64(v) => Constant::I64(v),
        MirConstant::F32(b) => Constant::F32(b),
        MirConstant::F64(b) => Constant::F64(b),
        MirConstant::Bool(b) => Constant::Boolean(b),
        MirConstant::Unit => Constant::I32(0),
    }
}

/// The WasmIR operator of a MIR binary operator.
pub open spec fn binop_from_mir(op: MirBinOp) -> BinaryOp {
    match op {
        MirBinOp::Add => BinaryOp::Add,
        MirBinOp::Sub => BinaryOp::Sub,
        MirBinOp::Mul => BinaryOp::Mul,
        MirBinOp::Div => BinaryOp::Div,
        MirBinOp::Rem => BinaryOp::Mod,
        MirBinOp::BitXor => BinaryOp::Xor,
        MirBinOp::BitAnd => BinaryOp::And,
        MirBinOp::BitOr => BinaryOp::Or,
        MirBinOp::Shl => BinaryOp::Shl,
        MirBinOp::Shr => BinaryOp::Shr,
        MirBinOp::Eq => BinaryOp::Eq,
        MirBinOp::Lt => BinaryOp::Lt,
        MirBinOp::Le => BinaryOp::Le,
        MirBinOp::Ne => BinaryOp::Ne,
        MirBinOp::Ge => BinaryOp::Ge,
        MirBinOp::Gt => BinaryOp::Gt,
    }
}

/// The WasmIR operator of a MIR unary operator.
pub open spec fn unop_from_mir(op: MirUnOp) -> UnaryOp {
    match op {
        MirUnOp::Not => UnaryOp::Not,
        MirUnOp::Neg => UnaryOp::Neg,
    }
}

/// The local at the root of a place (projections are looked through).
pub open spec fn place_root(p: MirPlace) -> u32
    decreases p,
{
    match p {
        MirPlace::Local(l) => l,
        MirPlace::Projection(base, _) => place_root(*base),
    }
}

/// The error reported for a place whose root local has no mapping.
pub open spec fn unknown_local_message(l: u32) -> Seq<char> {
    "Unknown local: "@ + decimal(l as nat)
}

/// Whether a MIR type is treated as linear.
pub open spec fn is_linear(mt: MirType) -> bool {
    mt is ExternRef || mt is FuncRef
}

// ---------------------------------------------------------------------------
// Ownership tracking
// ---------------------------------------------------------------------------

/// A source location as plain values: file, line and column.
pub type LocationView = (Seq<char>, u32, u32);

/// An ownership annotation as plain values.
pub type AnnotationView = (u32, OwnershipState, LocationView);

pub open spec fn location_view(l: SourceLocation) -> LocationView {
    (l.file@, l.line, l.column)
}

pub open spec fn annotation_view(a: OwnershipAnnotation) -> AnnotationView {
    (a.variable, a.state, location_view(a.source_location))
}

/// A copy of a source location.
pub fn copy_location(l: &SourceLocation) -> (r: SourceLocation)
    ensures
        location_view(r) == location_view(*l),
{
    SourceLocation { file: l.file.clone(), line: l.line, column: l.column }
}

/// Tracks the ownership state of locals and records every change.
#[derive(Debug)]
pub struct OwnershipTracker {
    local_states: HashMap<u32, OwnershipState>,
    annotations: Vec<OwnershipAnnotation>,
}

impl OwnershipTracker {
    /// The current state of each tracked local.
    pub closed spec fn states(&self) -> Map<u32, OwnershipState> {
        self.local_states@
    }

    /// The recorded annotations, oldest first.
    pub closed spec fn recorded(&self) -> Seq<OwnershipAnnotation> {
        self.annotations@
    }

    /// A tracker with no state and no annotation.
    pub fn new() -> (r: OwnershipTracker)
        ensures
            r.states() == Map::<u32, OwnershipState>::empty(),
            r.recorded() == Seq::<OwnershipAnnotation>::empty(),
    {
        OwnershipTracker { local_states: HashMap::new(), annotations: Vec::new() }
    }

    /// Records that `local` is now in `state`, as observed at `location`.
    pub fn set_ownership(&mut self, local: u32, state: OwnershipState, location: SourceLocation)
        ensures
            final(self).states() == old(self).states().insert(local, state),
            final(self).recorded() == old(self).recorded().push(
                OwnershipAnnotation { variable: local, state, source_location: location },
            ),
    {
        self.local_states.insert(local, state);
        self.annotations.push(
            OwnershipAnnotation { variable: local, state, source_location: location },
        );
    }

    /// The current state of `local`, if it is tracked.
    pub fn get_ownership(&self, local: u32) -> (r: Option<OwnershipState>)
        ensures
            r == (if self.states().contains_key(local) {
                Some(self.states()[local])
            } else {
                None
            }),
    {
        match self.local_states.get(&local) {
            Some(s) => Some(*s),
            None => None,
        }
    }

    /// The recorded annotations, oldest first.
    pub fn into_annotations(self) -> (r: Vec<OwnershipAnnotation>)
        ensures
            r@ == self.recorded(),
    {
        self.annotations
    }
}

// ---------------------------------------------------------------------------
// The lowering model
// ---------------------------------------------------------------------------

/// What lowering reads and does not change while it converts blocks: the
/// local and block mappings and the source location of each WasmIR local.
pub struct LowerEnv {
    pub locals: Map<u32, u32>,
    pub blocks: Map<u32, BlockId>,
    pub debug: Map<u32, LocationView>,
}

/// What lowering changes while it converts blocks: the ownership states,
/// the recorded annotations and the required capabilities.
pub struct LowerState {
    pub states: Map<u32, OwnershipState>,
    pub annotations: Seq<AnnotationView>,
    pub capabilities: Seq<Capability>,
}

/// `s` after recording that `l` is in `st` at `loc`.
pub open spec fn with_ownership(
    s: LowerState,
    l: u32,
    st: OwnershipState,
    loc: LocationView,
) -> LowerState {
    LowerState {
        states: s.states.insert(l, st),
        annotations: s.annotations.push((l, st, loc)),
        capabilities: s.capabilities,
    }
}

/// `s` after requiring capability `c` (listed once).
pub open spec fn with_capability(s: LowerState, c: Capability) -> LowerState {
    LowerState {
        states: s.states,
        annotations: s.annotations,
        capabilities: if s.capabilities.contains(c) {
            s.capabilities
        } else {
            s.capabilities.push(c)
        },
    }
}

/// `s` after recording `st` for `l` where `l` has a known location;
/// unchanged otherwise.
pub open spec fn note(e: LowerEnv, s: LowerState, l: u32, st: OwnershipState) -> LowerState {
    if e.debug.contains_key(l) {
        with_ownership(s, l, st, e.debug[l])
    } else {
        s
    }
}

/// The WasmIR local of a place: that of its root local.
pub open spec fn place_local(e: LowerEnv, p: MirPlace) -> Option<u32> {
    if e.locals.contains_key(place_root(p)) {
        Some(e.locals[place_root(p)])
    } else {
        None
    }
}

/// A place as a local index, or the error for an unknown root local.
pub open spec fn place_result(e: LowerEnv, p: MirPlace) -> Result<u32, Seq<char>> {
    match place_local(e, p) {
        Some(l) => Ok(l),
        None => Err(unknown_local_message(place_root(p))),
    }
}

/// Converting an operand: a moved place is recorded as moved.
pub open spec fn operand_step(e: LowerEnv, s: LowerState, op: MirOperand) -> (
    LowerState,
    Result<Operand, Seq<char>>,
) {
    match op {
        MirOperand::Copy(p) => match place_result(e, *p) {
            Ok(l) => (s, Ok(Operand::Local(l))),
            Err(m) => (s, Err(m)),
        },
        MirOperand::Move(p) => match place_result(e, *p) {
            Ok(l) => (note(e, s, l, OwnershipState::Moved), Ok(Operand::Local(l))),
            Err(m) => (s, Err(m)),
        },
        MirOperand::Constant(c) => (s, Ok(Operand::Constant(constant_from_mir(c)))),
    }
}

/// A result of an exec call, with its error message as plain text.
pub open spec fn result_view<T>(r: Result<T, String>) -> Result<T, Seq<char>> {
    match r {
        Ok(v) => Ok(v),
        Err(m) => Err(m@),
    }
}

/// No capability is listed twice.
pub open spec fn distinct_capabilities(s: Seq<Capability>) -> bool {
    forall|i: int, j: int| 0 <= i < j < s.len() ==> s[i] != s[j]
}

/// Two types agree, host reference names compared by their text.
pub open spec fn type_eqv(a: Type, b: Type) -> bool {
    match (a, b) {
        (Type::ExternRef(x), Type::ExternRef(y)) => x@ == y@,
        _ => a == b,
    }
}

/// Two instructions agree, the target type of a host reference cast
/// compared by [`type_eqv`].
pub open spec fn inst_eqv(a: Instruction, b: Instruction) -> bool {
    match (a, b) {
        (
            Instruction::ExternRefCast { externref: x1, target_type: t1 },
            Instruction::ExternRefCast { externref: x2, target_type: t2 },
        ) => x1 == x2 && type_eqv(t1, t2),
        _ => a == b,
    }
}

/// Two instruction sequences agree element by element.
pub open spec fn insts_eqv(a: Seq<Instruction>, b: Seq<Instruction>) -> bool {
    &&& a.len() == b.len()
    &&& forall|i: int| #![trigger b[i]] 0 <= i < a.len() ==> inst_eqv(a[i], b[i])
}

/// An exec result of instructions matches the expected one.
pub open spec fn insts_result(
    r: Result<Vec<Instruction>, String>,
    x: Result<Seq<Instruction>, Seq<char>>,
) -> bool {
    match (r, x) {
        (Ok(v), Ok(y)) => insts_eqv(y, v@),
        (Err(m), Err(y)) => m@ == y,
        _ => false,
    }
}

/// Lowering an assignment. Operands are converted before the place; a
/// moved operand also marks the destination as owned, at the moved local's
/// location.
pub open spec fn assign_step(e: LowerEnv, s: LowerState, place: MirPlace, rv: MirRvalue) -> (
    LowerState,
    Result<Seq<Instruction>, Seq<char>>,
) {
    match rv {
        MirRvalue::Use(op) => {
            let (s1, ro) = operand_step(e, s, op);
            match ro {
                Err(m) => (s1, Err(m)),
                Ok(o) => match place_result(e, place) {
                    Err(m) => (s1, Err(m)),
                    Ok(pl) => {
                        let s2 = match op {
                            MirOperand::Move(mp) => match place_local(e, *mp) {
                                Some(ml) => if e.debug.contains_key(ml) {
                                    with_ownership(
                                        with_ownership(s1, ml, OwnershipState::Moved, e.debug[ml]),
                                        pl,
                                        OwnershipState::Owned,
                                        e.debug[ml],
                                    )
                                } else {
                                    s1
                                },
                                None => s1,
                            },
                            _ => s1,
                        };
                        (s2, Ok(seq![Instruction::LocalSet { index: pl, value: o }]))
                    },
                },
            }
        },
        MirRvalue::BinaryOp(op, l, r) => {
            let (s1, rl) = operand_step(e, s, l);
            match rl {
                Err(m) => (s1, Err(m)),
                Ok(lo) => {
                    let (s2, rr) = operand_step(e, s1, r);
                    match rr {
                        Err(m) => (s2, Err(m)),
                        Ok(ro) => match place_result(e, place) {
                            Err(m) => (s2, Err(m)),
                            Ok(pl) => (
                                s2,
                                Ok(
                                    seq![
                                        Instruction::BinaryOp {
                                            op: binop_from_mir(op),
                                            left: lo,
                                            right: ro,
                                        },
                                        Instruction::LocalSet {
                                            index: pl,
                                            value: Operand::StackValue(0),
                                        },
                                    ],
                                ),
                            ),
                        },
                    }
                },
            }
        },
        MirRvalue::UnaryOp(op, o) => {
            let (s1, ro) = operand_step(e, s, o);
            match ro {
                Err(m) => (s1, Err(m)),
                Ok(v) => match place_result(e, place) {
                    Err(m) => (s1, Err(m)),
                    Ok(pl) => (
                        s1,
                        Ok(
                            seq![
                                Instruction::UnaryOp { op: unop_from_mir(op), value: v },
                                Instruction::LocalSet { index: pl, value: Operand::StackValue(0) },
                            ],
                        ),
                    ),
                },
            }
        },
        MirRvalue::Cast(o, ty) => {
            let (s1, ro) = operand_step(e, s, o);
            match ro {
                Err(m) => (s1, Err(m)),
                Ok(v) => match place_result(e, place) {
                    Err(m) => (s1, Err(m)),
                    Ok(pl) => match ty {
                        MirType::ExternRef(n) => (
                            with_capability(s1, Capability::JsInterop),
                            Ok(
                                seq![
                                    Instruction::ExternRefCast {
                                        externref: v,
                                        target_type: Type::ExternRef(n),
                                    },
                                ],
                            ),
                        ),
                        _ => (s1, Ok(seq![Instruction::LocalSet { index: pl, value: v }])),
                    },
                },
            }
        },
        MirRvalue::Ref(o) | MirRvalue::Len(o) => {
            let (s1, ro) = operand_step(e, s, o);
            match ro {
                Err(m) => (s1, Err(m)),
                Ok(v) => match place_result(e, place) {
                    Err(m) => (s1, Err(m)),
                    Ok(pl) => (s1, Ok(seq![Instruction::LocalSet { index: pl, value: v }])),
                },
            }
        },
    }
}

/// Lowering a statement. Storage markers record the local as owned (live)
/// or consumed (dead) and emit nothing.
pub open spec fn stmt_step(e: LowerEnv, s: LowerState, st: MirStatement) -> (
    LowerState,
    Result<Seq<Instruction>, Seq<char>>,
) {
    match st {
        MirStatement::Assign(p, rv) => assign_step(e, s, p, rv),
        MirStatement::StorageLive(l) => (
            if e.locals.contains_key(l) {
                note(e, s, e.locals[l], OwnershipState::Owned)
            } else {
                s
            },
            Ok(Seq::empty()),
        ),
        MirStatement::StorageDead(l) => (
            if e.locals.contains_key(l) {
                note(e, s, e.locals[l], OwnershipState::Consumed)
            } else {
                s
            },
            Ok(Seq::empty()),
        ),
        MirStatement::Nop => (s, Ok(seq![Instruction::Nop])),
    }
}

/// Lowering the first `k` statements in order, stopping at the first error.
pub open spec fn stmts_step(e: LowerEnv, s: LowerState, sts: Seq<MirStatement>, k: int) -> (
    LowerState,
    Result<Seq<Instruction>, Seq<char>>,
)
    decreases k,
{
    if k <= 0 {
        (s, Ok(Seq::empty()))
    } else {
        let (s1, r1) = stmts_step(e, s, sts, k - 1);
        match r1 {
            Err(m) => (s1, Err(m)),
            Ok(is) => {
                let (s2, r2) = stmt_step(e, s1, sts[k - 1]);
                match r2 {
                    Err(m) => (s2, Err(m)),
                    Ok(js) => (s2, Ok(is + js)),
                }
            },
        }
    }
}

proof fn lemma_stmts_err_stays(e: LowerEnv, s: LowerState, sts: Seq<MirStatement>, k: int, k2: int)
    requires
        0 <= k <= k2,
        stmts_step(e, s, sts, k).1 is Err,
    ensures
        stmts_step(e, s, sts, k2) == stmts_step(e, s, sts, k),
    decreases k2,
{
    if k2 > k {
        lemma_stmts_err_stays(e, s, sts, k, k2 - 1);
    }
}

proof fn lemma_insts_eqv_concat(
    x1: Seq<Instruction>,
    v1: Seq<Instruction>,
    x2: Seq<Instruction>,
    v2: Seq<Instruction>,
)
    requires
        insts_eqv(x1, v1),
        insts_eqv(x2, v2),
    ensures
        insts_eqv(x1 + x2, v1 + v2),
{
    assert forall|i: int| 0 <= i < (x1 + x2).len() implies inst_eqv(
        (x1 + x2)[i],
        #[trigger] (v1 + v2)[i],
    ) by {
        if i < x1.len() {
            assert(inst_eqv(x1[i], v1[i]));
        } else {
            assert(inst_eqv(x2[i - x1.len()], v2[i - x1.len()]));
        }
    }
}

/// The shape of a lowered terminator.
pub enum TermShape {
    Return,
    Jump(BlockId),
    Switch(Operand, Seq<(Operand, BlockId)>, BlockId),
    Unreachable,
}

/// `t` has the shape `m` (a return carries no value).
pub open spec fn term_is(t: Terminator, m: TermShape) -> bool {
    match m {
        TermShape::Return => t == Terminator::Return { value: None },
        TermShape::Jump(b) => t == Terminator::Jump { target: b },
        TermShape::Switch(v, ts, d) => t matches Terminator::Switch {
            value,
            targets,
            default_target,
        } && value == v && targets@ == ts && default_target == d,
        TermShape::Unreachable => t == Terminator::Unreachable,
    }
}

/// An exec terminator result matches the expected one.
pub open spec fn term_result(r: Result<Terminator, String>, x: Result<TermShape, Seq<char>>) -> bool {
    match (r, x) {
        (Ok(t), Ok(m)) => term_is(t, m),
        (Err(a), Err(b)) => a@ == b,
        _ => false,
    }
}

/// The block a MIR block number maps to, or the error `prefix` followed by
/// the number.
pub open spec fn block_result(e: LowerEnv, b: u32, prefix: Seq<char>) -> Result<BlockId, Seq<char>> {
    if e.blocks.contains_key(b) {
        Ok(e.blocks[b])
    } else {
        Err(prefix + decimal(b as nat))
    }
}

/// The first `k` switch targets, each value an `i32` constant.
pub open spec fn targets_result(e: LowerEnv, ts: Seq<(i32, u32)>, k: int) -> Result<
    Seq<(Operand, BlockId)>,
    Seq<char>,
>
    decreases k,
{
    if k <= 0 {
        Ok(Seq::empty())
    } else {
        match targets_result(e, ts, k - 1) {
            Err(m) => Err(m),
            Ok(prev) => match block_result(e, ts[k - 1].1, "Invalid switch target: "@) {
                Err(m) => Err(m),
                Ok(b) => Ok(prev.push((Operand::Constant(Constant::I32(ts[k - 1].0)), b))),
            },
        }
    }
}

/// Converting the first `k` call arguments, stopping at the first error.
pub open spec fn args_step(e: LowerEnv, s: LowerState, args: Seq<MirOperand>, k: int) -> (
    LowerState,
    Option<Seq<char>>,
)
    decreases k,
{
    if k <= 0 {
        (s, None)
    } else {
        let (s1, r1) = args_step(e, s, args, k - 1);
        match r1 {
            Some(m) => (s1, Some(m)),
            None => {
                let (s2, r2) = operand_step(e, s1, args[k - 1]);
                match r2 {
                    Err(m) => (s2, Some(m)),
                    Ok(_) => (s2, None),
                }
            },
        }
    }
}

/// Lowering a terminator. A call becomes a jump to its return block (or
/// `unreachable` without a destination) once its operands are converted.
pub open spec fn term_step(e: LowerEnv, s: LowerState, t: MirTerminator) -> (
    LowerState,
    Result<TermShape, Seq<char>>,
) {
    match t {
        MirTerminator::Return => (s, Ok(TermShape::Return)),
        MirTerminator::Goto { target } => (
            s,
            match block_result(e, target, "Invalid block target: "@) {
                Ok(b) => Ok(TermShape::Jump(b)),
                Err(m) => Err(m),
            },
        ),
        MirTerminator::SwitchInt { discr, targets, otherwise } => {
            let (s1, rd) = operand_step(e, s, discr);
            match rd {
                Err(m) => (s1, Err(m)),
                Ok(c) => match targets_result(e, targets@, targets@.len() as int) {
                    Err(m) => (s1, Err(m)),
                    Ok(ts) => match block_result(e, otherwise, "Invalid default target: "@) {
                        Err(m) => (s1, Err(m)),
                        Ok(d) => (s1, Ok(TermShape::Switch(c, ts, d))),
                    },
                },
            }
        },
        MirTerminator::Call { func, args, destination } => {
            let (s1, rf) = operand_step(e, s, func);
            match rf {
                Err(m) => (s1, Err(m)),
                Ok(_) => {
                    let (s2, ra) = args_step(e, s1, args@, args@.len() as int);
                    match ra {
                        Some(m) => (s2, Err(m)),
                        None => match destination {
                            Some((dp, t)) => match place_result(e, dp) {
                                Err(m) => (s2, Err(m)),
                                Ok(_) => (
                                    s2,
                                    match block_result(e, t, "Invalid call target: "@) {
                                        Ok(b) => Ok(TermShape::Jump(b)),
                                        Err(m) => Err(m),
                                    },
                                ),
                            },
                            None => (s2, Ok(TermShape::Unreachable)),
                        },
                    }
                },
            }
        },
        MirTerminator::Unreachable => (s, Ok(TermShape::Unreachable)),
    }
}

proof fn lemma_targets_err_stays(e: LowerEnv, ts: Seq<(i32, u32)>, k: int, k2: int)
    requires
        0 <= k <= k2,
        targets_result(e, ts, k) is Err,
    ensures
        targets_result(e, ts, k2) == targets_result(e, ts, k),
    decreases k2,
{
    if k2 > k {
        lemma_targets_err_stays(e, ts, k, k2 - 1);
    }
}

proof fn lemma_args_err_stays(e: LowerEnv, s: LowerState, args: Seq<MirOperand>, k: int, k2: int)
    requires
        0 <= k <= k2,
        args_step(e, s, args, k).1 is Some,
    ensures
        args_step(e, s, args, k2) == args_step(e, s, args, k),
    decreases k2,
{
    if k2 > k {
        lemma_args_err_stays(e, s, args, k, k2 - 1);
    }
}

/// Lowering a block: its statements, then its terminator.
pub open spec fn block_step(e: LowerEnv, s: LowerState, b: MirBasicBlock) -> (
    LowerState,
    Result<(Seq<Instruction>, TermShape), Seq<char>>,
) {
    let (s1, ri) = stmts_step(e, s, b.statements@, b.statements@.len() as int);
    match ri {
        Err(m) => (s1, Err(m)),
        Ok(is) => {
            let (s2, rt) = term_step(e, s1, b.terminator);
            match rt {
                Err(m) => (s2, Err(m)),
                Ok(t) => (s2, Ok((is, t))),
            }
        },
    }
}

/// Lowering the first `k` blocks in order, stopping at the first error.
pub open spec fn blocks_step(e: LowerEnv, s: LowerState, bs: Seq<MirBasicBlock>, k: int) -> (
    LowerState,
    Result<Seq<(Seq<Instruction>, TermShape)>, Seq<char>>,
)
    decreases k,
{
    if k <= 0 {
        (s, Ok(Seq::empty()))
    } else {
        let (s1, r1) = blocks_step(e, s, bs, k - 1);
        match r1 {
            Err(m) => (s1, Err(m)),
            Ok(prev) => {
                let (s2, r2) = block_step(e, s1, bs[k - 1]);
                match r2 {
                    Err(m) => (s2, Err(m)),
                    Ok(b) => (s2, Ok(prev.push(b))),
                }
            },
        }
    }
}

proof fn lemma_blocks_err_stays(e: LowerEnv, s: LowerState, bs: Seq<MirBasicBlock>, k: int, k2: int)
    requires
        0 <= k <= k2,
        blocks_step(e, s, bs, k).1 is Err,
    ensures
        blocks_step(e, s, bs, k2) == blocks_step(e, s, bs, k),
    decreases k2,
{
    if k2 > k {
        lemma_blocks_err_stays(e, s, bs, k, k2 - 1);
    }
}

/// A MIR span as a location.
pub open spec fn span_view(sp: MirSpan) -> LocationView {
    (sp.filename@, sp.line, sp.column)
}

/// Declaring the first `k` locals of a function with `p` parameters: MIR
/// local `i` becomes WasmIR local `p + i` at the declaration's location; a
/// linear local starts owned, and an `ExternRef` local requires JavaScript
/// interop.
pub open spec fn decls_step(e: LowerEnv, s: LowerState, decls: Seq<MirLocalDecl>, p: nat, k: int) -> (
    LowerEnv,
    LowerState,
)
    decreases k,
{
    if k <= 0 {
        (e, s)
    } else {
        let (e1, s1) = decls_step(e, s, decls, p, k - 1);
        let d = decls[k - 1];
        let idx = (p + k - 1) as u32;
        let loc = span_view(d.source_info.span);
        let e2 = LowerEnv {
            locals: e1.locals.insert((k - 1) as u32, idx),
            blocks: e1.blocks,
            debug: e1.debug.insert(idx, loc),
        };
        let s2 = if d.ty is ExternRef {
            with_capability(s1, Capability::JsInterop)
        } else {
            s1
        };
        let s3 = if is_linear(d.ty) {
            with_ownership(s2, idx, OwnershipState::Owned, loc)
        } else {
            s2
        };
        (e2, s3)
    }
}

/// `e` with MIR blocks `0 .. k` mapped to the blocks of the same number.
pub open spec fn with_block_numbers(e: LowerEnv, k: int) -> LowerEnv
    decreases k,
{
    if k <= 0 {
        e
    } else {
        let e1 = with_block_numbers(e, k - 1);
        LowerEnv {
            locals: e1.locals,
            blocks: e1.blocks.insert((k - 1) as u32, BlockId((k - 1) as usize)),
            debug: e1.debug,
        }
    }
}

/// `w` is the function built from `mir`: its name, converted signature and
/// locals, the lowered blocks numbered in order, and the capabilities and
/// annotations gathered in `s`.
pub open spec fn lowered(
    mir: MirFunction,
    s: LowerState,
    shapes: Seq<(Seq<Instruction>, TermShape)>,
    w: WasmIR,
) -> bool {
    &&& w.name@ == mir.name@
    &&& signature_from_mir(mir.signature, w.signature)
    &&& w.locals@.len() == mir.local_decls@.len()
    &&& forall|i: int|
        #![trigger w.locals@[i]]
        0 <= i < mir.local_decls@.len() ==> type_from_mir(mir.local_decls@[i].ty, w.locals@[i])
    &&& w.basic_blocks@.len() == shapes.len()
    &&& forall|i: int|
        #![trigger w.basic_blocks@[i]]
        0 <= i < shapes.len() ==> {
            &&& w.basic_blocks@[i].id == BlockId(i as usize)
            &&& insts_eqv(shapes[i].0, w.basic_blocks@[i].instructions@)
            &&& term_is(w.basic_blocks@[i].terminator, shapes[i].1)
        }
    &&& w.capabilities@ == s.capabilities
    &&& w.ownership_annotations@.map_values(|a: OwnershipAnnotation| annotation_view(a))
        == s.annotations
}

/// The mappings after lowering `mir` from mappings `e0` and state `s0`:
/// its locals and its blocks mapped.
pub open spec fn lowering_env(e0: LowerEnv, s0: LowerState, mir: MirFunction) -> LowerEnv {
    with_block_numbers(
        decls_step(
            e0,
            s0,
            mir.local_decls@,
            mir.signature.inputs@.len(),
            mir.local_decls@.len() as int,
        ).0,
        mir.basic_blocks@.len() as int,
    )
}

/// The state and the lowered blocks (or the first error) of lowering `mir`
/// from mappings `e0` and state `s0`.
pub open spec fn lowering_blocks(e0: LowerEnv, s0: LowerState, mir: MirFunction) -> (
    LowerState,
    Result<Seq<(Seq<Instruction>, TermShape)>, Seq<char>>,
) {
    blocks_step(
        lowering_env(e0, s0, mir),
        decls_step(
            e0,
            s0,
            mir.local_decls@,
            mir.signature.inputs@.len(),
            mir.local_decls@.len() as int,
        ).1,
        mir.basic_blocks@,
        mir.basic_blocks@.len() as int,
    )
}

/// The outcome of lowering `mir` from mappings `e0` and state `s0`, as a
/// relation to the result `r` and the final mappings `e` and state `s`. The
/// local and block mappings are always extended. A block that fails to
/// lower stops the lowering with its error. Otherwise the gathered
/// annotations move to the function (the tracker is emptied, the
/// capabilities stay), and the function is validated.
pub open spec fn lowering_outcome(
    e0: LowerEnv,
    s0: LowerState,
    mir: MirFunction,
    e: LowerEnv,
    s: LowerState,
    r: Result<WasmIR, String>,
) -> bool {
    &&& e == lowering_env(e0, s0, mir)
    &&& match lowering_blocks(e0, s0, mir).1 {
        Err(m) => s == lowering_blocks(e0, s0, mir).0 && (r matches Err(x) && x@ == m),
        Ok(shapes) => {
            &&& s == LowerState {
                states: Map::empty(),
                annotations: Seq::empty(),
                capabilities: lowering_blocks(e0, s0, mir).0.capabilities,
            }
            &&& r matches Ok(w) ==> lowered(mir, lowering_blocks(e0, s0, mir).0, shapes, w)
                && w.fault() is None
            &&& r matches Err(x) ==> exists|w: WasmIR|
                #![trigger lowered(mir, lowering_blocks(e0, s0, mir).0, shapes, w)]
                lowered(mir, lowering_blocks(e0, s0, mir).0, shapes, w) && (w.fault() matches Some(
                    f,
                ) && x@ == "WasmIR validation failed: "@ + fault_text(f))
        },
    }
}

/// A statement lowers to at most two instructions.
pub proof fn lemma_stmt_step_len(e: LowerEnv, s: LowerState, st: MirStatement)
    ensures
        stmt_step(e, s, st).1 matches Ok(x) ==> x.len() <= 2,
{
}

/// The first `k` statements lower to at most `2 * k` instructions.
pub proof fn lemma_stmts_step_len(e: LowerEnv, s: LowerState, sts: Seq<MirStatement>, k: int)
    requires
        0 <= k,
    ensures
        stmts_step(e, s, sts, k).1 matches Ok(x) ==> x.len() <= 2 * k,
    decreases k,
{
    if k > 0 {
        lemma_stmts_step_len(e, s, sts, k - 1);
        lemma_stmt_step_len(e, stmts_step(e, s, sts, k - 1).0, sts[k - 1]);
    }
}

/// Each lowered block has at most twice as many instructions as its
/// statements.
pub proof fn lemma_blocks_step_len(e: LowerEnv, s: LowerState, bs: Seq<MirBasicBlock>, k: int)
    requires
        0 <= k <= bs.len(),
    ensures
        blocks_step(e, s, bs, k).1 matches Ok(shapes) ==> shapes.len() == k && forall|i: int|
            #![trigger shapes[i]]
            0 <= i < k ==> shapes[i].0.len() <= 2 * bs[i].statements@.len(),
    decreases k,
{
    if k > 0 {
        lemma_blocks_step_len(e, s, bs, k - 1);
        let s1 = blocks_step(e, s, bs, k - 1).0;
        lemma_stmts_step_len(e, s1, bs[k - 1].statements@, bs[k - 1].statements@.len() as int);
    }
}

/// No mapping and no location.
pub open spec fn empty_env() -> LowerEnv {
    LowerEnv { locals: Map::empty(), blocks: Map::empty(), debug: Map::empty() }
}

/// No ownership state, annotation or capability.
pub open spec fn empty_state() -> LowerState {
    LowerState { states: Map::empty(), annotations: Seq::empty(), capabilities: Seq::empty() }
}

// ---------------------------------------------------------------------------
// The lowering context
// ---------------------------------------------------------------------------

/// Context for lowering MIR functions to WasmIR.
pub struct MirLoweringContext {
    current_function: Option<WasmIR>,
    local_mappings: HashMap<u32, u32>,
    block_mappings: HashMap<u32, BlockId>,
    error_messages: Vec<String>,
    debug_info: HashMap<u32, SourceLocation>,
    ownership_tracker: OwnershipTracker,
    /// The set of required capabilities, each listed once (see `wf`), in
    /// the order they were first required.
    required_capabilities: Vec<Capability>,
}

impl MirLoweringContext {
    /// The mappings and locations lowering reads.
    pub closed spec fn env(&self) -> LowerEnv {
        LowerEnv {
            locals: self.local_mappings@,
            blocks: self.block_mappings@,
            debug: self.debug_info@.map_values(|l: SourceLocation| location_view(l)),
        }
    }

    /// The ownership states, annotations and capabilities gathered so far.
    pub closed spec fn state(&self) -> LowerState {
        LowerState {
            states: self.ownership_tracker.states(),
            annotations: self.ownership_tracker.recorded().map_values(
                |a: OwnershipAnnotation| annotation_view(a),
            ),
            capabilities: self.required_capabilities@,
        }
    }

    /// The error messages added so far.
    pub closed spec fn errors(&self) -> Seq<Seq<char>> {
        self.error_messages@.map_values(|m: String| m@)
    }

    /// The function set with [`Self::set_function`], if any.
    pub closed spec fn function(&self) -> Option<WasmIR> {
        self.current_function
    }

    /// The context's invariant: no capability is required twice.
    pub closed spec fn wf(&self) -> bool {
        distinct_capabilities(self.required_capabilities@)
    }

    /// `self` and `other` agree on everything but the lowering state.
    pub open spec fn same_frame(&self, other: &Self) -> bool {
        &&& other.env() == self.env()
        &&& other.errors() == self.errors()
        &&& other.function() == self.function()
    }

    /// An empty context.
    pub fn new() -> (r: MirLoweringContext)
        ensures
            r.wf(),
            r.env() == empty_env(),
            r.state() == empty_state(),
            r.errors().len() == 0,
            r.function() is None,
    {
        let r = MirLoweringContext {
            current_function: None,
            local_mappings: HashMap::new(),
            block_mappings: HashMap::new(),
            error_messages: Vec::new(),
            debug_info: HashMap::new(),
            ownership_tracker: OwnershipTracker::new(),
            required_capabilities: Vec::new(),
        };
        assert(r.env().debug =~= Map::empty());
        assert(r.state().annotations =~= Seq::empty());
        r
    }

    /// Number of local mappings.
    pub fn local_mapping_count(&self) -> (r: usize)
        ensures
            r == self.env().locals.len(),
    {
        self.local_mappings.len()
    }

    /// Number of block mappings.
    pub fn block_mapping_count(&self) -> (r: usize)
        ensures
            r == self.env().blocks.len(),
    {
        self.block_mappings.len()
    }

    /// Whether an error was added.
    pub fn has_errors(&self) -> (r: bool)
        ensures
            r == (self.errors().len() > 0),
    {
        self.error_messages.len() > 0
    }

    /// The error messages, oldest first.
    pub fn get_errors(&self) -> (r: &[String])
        ensures
            r@.map_values(|m: String| m@) == self.errors(),
    {
        self.error_messages.as_slice()
    }

    /// Adds an error message.
    pub fn add_error(&mut self, message: String)
        ensures
            final(self).errors() == old(self).errors().push(message@),
            final(self).env() == old(self).env(),
            final(self).state() == old(self).state(),
            final(self).function() == old(self).function(),
            final(self).wf() == old(self).wf(),
    {
        let ghost m = message@;
        self.error_messages.push(message);
        assert(self.errors() =~= old(self).errors().push(m));
    }

    /// Sets the current function.
    pub fn set_function(&mut self, func: WasmIR)
        ensures
            final(self).function() == Some(func),
            final(self).env() == old(self).env(),
            final(self).state() == old(self).state(),
            final(self).errors() == old(self).errors(),
            final(self).wf() == old(self).wf(),
    {
        self.current_function = Some(func);
    }

    /// `r` is what [`Self::into_wasmir`] gives: the function set with
    /// [`Self::set_function`]; without one, the default function.
    pub open spec fn into_wasmir_result(&self, r: Result<WasmIR, String>) -> bool {
        match self.function() {
            Some(f) => r == Ok::<WasmIR, String>(f),
            None => r matches Ok(w) && w.name@ == "default_function"@ && is_add_function(
                w,
                Operand::Local(0),
            ) && w.locals@.len() == 0,
        }
    }

    /// The function set with [`Self::set_function`]; without one, the
    /// default function `default_function(i32, i32) -> i32` whose only
    /// block adds its parameters and returns the first.
    pub fn into_wasmir(self) -> (r: Result<WasmIR, String>)
        ensures
            self.into_wasmir_result(r),
    {
        match self.current_function {
            Some(func) => Ok(func),
            None => {
                let w = add_function(String::from_str("default_function"), Operand::Local(0));
                proof {
                    reveal_strlit("default_function");
                }
                Ok(w)
            },
        }
    }

    /// The function `name(i32, i32) -> i32` with one `i32` local, whose only
    /// block adds the parameters and returns the local.
    pub fn create_simple_function(&mut self, name: String) -> (r: WasmIR)
        ensures
            r.name == name,
            is_add_function(r, Operand::Local(2)),
            r.locals@.len() == 1,
            r.locals@[0] is I32,
            *final(self) == *old(self),
    {
        let mut w = add_function(name, Operand::Local(2));
        w.add_local(Type::I32);
        w
    }

    /// Converts a MIR type.
    pub fn convert_type(&self, mir_ty: &MirType) -> (r: Result<Type, String>)
        ensures
            r matches Ok(t) && type_from_mir(*mir_ty, t),
        decreases mir_ty,
    {
        match mir_ty {
            MirType::I32 => Ok(Type::I32),
            MirType::I64 => Ok(Type::I64),
            MirType::F32 => Ok(Type::F32),
            MirType::F64 => Ok(Type::F64),
            MirType::Bool => Ok(Type::I32),
            MirType::ExternRef(host_type) => Ok(Type::ExternRef(host_type.clone())),
            MirType::FuncRef => Ok(Type::FuncRef),
            MirType::Ref(inner_ty) => {
                let inner = self.convert_type(inner_ty)?;
                Ok(Type::Pointer(Box::new(inner)))
            },
            MirType::Array(element_ty, size) => {
                let el = self.convert_type(element_ty)?;
                Ok(Type::Array { element_type: Box::new(el), size: Some(*size) })
            },
            MirType::Struct(field_types) => {
                let mut fields: Vec<Type> = Vec::new();
                let n = field_types.len();
                let mut i: usize = 0;
                while i < n
                    invariant
                        0 <= i <= n,
                        n == field_types@.len(),
                        *mir_ty == MirType::Struct(*field_types),
                        fields@.len() == i,
                        forall|k: int|
                            #![trigger fields@[k]]
                            0 <= k < i ==> type_from_mir(field_types@[k], fields@[k]),
                    decreases n - i,
                {
                    proof {
                        assert(decreases_to!(*mir_ty => (*mir_ty)->Struct_0));
                        assert((*mir_ty)->Struct_0 == *field_types);
                        assert(decreases_to!(*field_types => field_types@));
                        assert(decreases_to!(field_types@ => field_types@[i as int]));
                    }
                    let f = self.convert_type(&field_types[i])?;
                    fields.push(f);
                    i = i + 1;
                }
                Ok(Type::Struct { fields })
            },
            MirType::Unit => Ok(Type::Void),
        }
    }

    /// Converts a MIR signature.
    pub fn convert_signature(&self, mir_sig: &MirSignature) -> (r: Result<Signature, String>)
        ensures
            r matches Ok(sig) && signature_from_mir(*mir_sig, sig),
    {
        let mut params: Vec<Type> = Vec::new();
        let n = mir_sig.inputs.len();
        let mut i: usize = 0;
        while i < n
            invariant
                0 <= i <= n,
                n == mir_sig.inputs@.len(),
                params@.len() == i,
                forall|k: int|
                    #![trigger params@[k]]
                    0 <= k < i ==> type_from_mir(mir_sig.inputs@[k], params@[k]),
            decreases n - i,
        {
            let t = self.convert_type(&mir_sig.inputs[i])?;
            params.push(t);
            i = i + 1;
        }
        let result_type = match mir_sig.output {
            MirType::Unit => None,
            _ => Some(self.convert_type(&mir_sig.output)?),
        };
        Ok(Signature { params, returns: result_type })
    }

    /// Whether a MIR type is linear (`ExternRef`, `FuncRef`); an `ExternRef`
    /// also requires JavaScript interop.
    pub fn is_linear_type(&mut self, mir_ty: &MirType) -> (r: bool)
        requires
            old(self).wf(),
        ensures
            r == is_linear(*mir_ty),
            final(self).wf(),
            final(self).state() == (if mir_ty is ExternRef {
                with_capability(old(self).state(), Capability::JsInterop)
            } else {
                old(self).state()
            }),
            old(self).same_frame(final(self)),
    {
        match mir_ty {
            MirType::ExternRef(_) => {
                self.require_capability(Capability::JsInterop);
                true
            },
            MirType::FuncRef => true,
            _ => false,
        }
    }

    /// Adds a capability to the required ones, once.
    fn require_capability(&mut self, c: Capability)
        requires
            old(self).wf(),
        ensures
            final(self).wf(),
            final(self).state() == with_capability(old(self).state(), c),
            old(self).same_frame(final(self)),
    {
        if !crate::wasmir::contains_capability(&self.required_capabilities, c) {
            self.required_capabilities.push(c);
        }
    }

    /// Converts a MIR constant.
    pub fn convert_constant(&self, constant: &MirConstant) -> (r: Result<Constant, String>)
        ensures
            r == Ok::<Constant, String>(constant_from_mir(*constant)),
    {
        match constant {
            MirConstant::I32(value) => Ok(Constant::I32(*value)),
            MirConstant::I64(value) => Ok(Constant::I64(*value)),
            MirConstant::F32(bits) => Ok(Constant::F32(*bits)),
            MirConstant::F64(bits) => Ok(Constant::F64(*bits)),
            MirConstant::Bool(value) => Ok(Constant::Boolean(*value)),
            MirConstant::Unit => Ok(Constant::I32(0)),
        }
    }

    /// Converts a MIR binary operator.
    pub fn convert_binary_op(&self, op: MirBinOp) -> (r: Result<BinaryOp, String>)
        ensures
            r == Ok::<BinaryOp, String>(binop_from_mir(op)),
    {
        match op {
            MirBinOp::Add => Ok(BinaryOp::Add),
            MirBinOp::Sub => Ok(BinaryOp::Sub),
            MirBinOp::Mul => Ok(BinaryOp::Mul),
            MirBinOp::Div => Ok(BinaryOp::Div),
            MirBinOp::Rem => Ok(BinaryOp::Mod),
            MirBinOp::BitXor => Ok(BinaryOp::Xor),
            MirBinOp::BitAnd => Ok(BinaryOp::And),
            MirBinOp::BitOr => Ok(BinaryOp::Or),
            MirBinOp::Shl => Ok(BinaryOp::Shl),
            MirBinOp::Shr => Ok(BinaryOp::Shr),
            MirBinOp::Eq => Ok(BinaryOp::Eq),
            MirBinOp::Lt => Ok(BinaryOp::Lt),
            MirBinOp::Le => Ok(BinaryOp::Le),
            MirBinOp::Ne => Ok(BinaryOp::Ne),
            MirBinOp::Ge => Ok(BinaryOp::Ge),
            MirBinOp::Gt => Ok(BinaryOp::Gt),
        }
    }

    /// Converts a MIR unary operator.
    pub fn convert_unary_op(&self, op: MirUnOp) -> (r: Result<UnaryOp, String>)
        ensures
            r == Ok::<UnaryOp, String>(unop_from_mir(op)),
    {
        match op {
            MirUnOp::Not => Ok(UnaryOp::Not),
            MirUnOp::Neg => Ok(UnaryOp::Neg),
        }
    }

    /// The WasmIR local of a place: projections resolve to their base.
    pub fn convert_place_to_local(&self, place: &MirPlace) -> (r: Result<u32, String>)
        ensures
            result_view(r) == place_result(self.env(), *place),
        decreases place,
    {
        match place {
            MirPlace::Local(local) => match self.local_mappings.get(local) {
                Some(l) => Ok(*l),
                None => {
                    let mut m = String::from_str("Unknown local: ");
                    let d = to_decimal(*local as u64);
                    m.append(d.as_str());
                    proof {
                        reveal_strlit("Unknown local: ");
                    }
                    Err(m)
                },
            },
            MirPlace::Projection(base, _) => self.convert_place_to_local(base),
        }
    }

    /// Records `state` for `local` where the local has a known location.
    fn note_ownership(&mut self, local: u32, state: OwnershipState)
        requires
            old(self).wf(),
        ensures
            final(self).wf(),
            final(self).state() == note(old(self).env(), old(self).state(), local, state),
            old(self).same_frame(final(self)),
    {
        match self.debug_info.get(&local) {
            Some(loc) => {
                let l = copy_location(loc);
                let ghost before = self.ownership_tracker.recorded();
                self.ownership_tracker.set_ownership(local, state, l);
                assert(self.ownership_tracker.recorded().map_values(
                    |a: OwnershipAnnotation| annotation_view(a),
                ) =~= before.map_values(|a: OwnershipAnnotation| annotation_view(a)).push(
                    (local, state, location_view(*loc)),
                ));
            },
            None => {},
        }
    }

    /// Converts an operand; a moved place is recorded as moved.
    pub fn convert_operand(&mut self, operand: &MirOperand) -> (r: Result<Operand, String>)
        requires
            old(self).wf(),
        ensures
            final(self).wf(),
            (final(self).state(), result_view(r)) == operand_step(
                old(self).env(),
                old(self).state(),
                *operand,
            ),
            old(self).same_frame(final(self)),
    {
        match operand {
            MirOperand::Copy(place) => {
                let local = self.convert_place_to_local(place)?;
                Ok(Operand::Local(local))
            },
            MirOperand::Move(place) => {
                let local = self.convert_place_to_local(place)?;
                self.note_ownership(local, OwnershipState::Moved);
                Ok(Operand::Local(local))
            },
            MirOperand::Constant(constant) => {
                let c = self.convert_constant(constant)?;
                Ok(Operand::Constant(c))
            },
        }
    }

    /// Lowers an assignment.
    fn convert_assignment(&mut self, place: &MirPlace, rvalue: &MirRvalue) -> (r: Result<
        Vec<Instruction>,
        String,
    >)
        requires
            old(self).wf(),
        ensures
            final(self).wf(),
            final(self).state() == assign_step(
                old(self).env(),
                old(self).state(),
                *place,
                *rvalue,
            ).0,
            insts_result(r, assign_step(old(self).env(), old(self).state(), *place, *rvalue).1),
            old(self).same_frame(final(self)),
    {
        let mut instructions: Vec<Instruction> = Vec::new();
        match rvalue {
            MirRvalue::Use(operand) => {
                let wasmir_operand = self.convert_operand(operand)?;
                let place_local = self.convert_place_to_local(place)?;
                match operand {
                    MirOperand::Move(moved_place) => {
                        match self.convert_place_to_local(moved_place) {
                            Ok(moved_local) => {
                                match self.debug_info.get(&moved_local) {
                                    Some(loc) => {
                                        let l1 = copy_location(loc);
                                        let l2 = copy_location(loc);
                                        let ghost before = self.ownership_tracker.recorded();
                                        self.ownership_tracker.set_ownership(
                                            moved_local,
                                            OwnershipState::Moved,
                                            l1,
                                        );
                                        self.ownership_tracker.set_ownership(
                                            place_local,
                                            OwnershipState::Owned,
                                            l2,
                                        );
                                        assert(self.ownership_tracker.recorded().map_values(
                                            |a: OwnershipAnnotation| annotation_view(a),
                                        ) =~= before.map_values(
                                            |a: OwnershipAnnotation| annotation_view(a),
                                        ).push((moved_local, OwnershipState::Moved, location_view(*loc))).push(
                                            (place_local, OwnershipState::Owned, location_view(*loc)),
                                        ));
                                    },
                                    None => {},
                                }
                            },
                            Err(_) => {},
                        }
                    },
                    _ => {},
                }
                instructions.push(Instruction::LocalSet { index: place_local, value: wasmir_operand });
            },
            MirRvalue::BinaryOp(op, left, right) => {
                let wasmir_op = self.convert_binary_op(*op)?;
                let left_operand = self.convert_operand(left)?;
                let right_operand = self.convert_operand(right)?;
                let place_local = self.convert_place_to_local(place)?;
                instructions.push(
                    Instruction::BinaryOp { op: wasmir_op, left: left_operand, right: right_operand },
                );
                instructions.push(
                    Instruction::LocalSet { index: place_local, value: Operand::StackValue(0) },
                );
            },
            MirRvalue::UnaryOp(op, operand) => {
                let wasmir_op = self.convert_unary_op(*op)?;
                let wasmir_operand = self.convert_operand(operand)?;
                let place_local = self.convert_place_to_local(place)?;
                instructions.push(Instruction::UnaryOp { op: wasmir_op, value: wasmir_operand });
                instructions.push(
                    Instruction::LocalSet { index: place_local, value: Operand::StackValue(0) },
                );
            },
            MirRvalue::Cast(operand, target_ty) => {
                let wasmir_operand = self.convert_operand(operand)?;
                let target_type = self.convert_type(target_ty)?;
                let place_local = self.convert_place_to_local(place)?;
                match target_type {
                    Type::ExternRef(_) => {
                        self.require_capability(Capability::JsInterop);
                        instructions.push(
                            Instruction::ExternRefCast { externref: wasmir_operand, target_type },
                        );
                    },
                    _ => {
                        instructions.push(
                            Instruction::LocalSet { index: place_local, value: wasmir_operand },
                        );
                    },
                }
            },
            MirRvalue::Ref(operand) | MirRvalue::Len(operand) => {
                let wasmir_operand = self.convert_operand(operand)?;
                let place_local = self.convert_place_to_local(place)?;
                instructions.push(Instruction::LocalSet { index: place_local, value: wasmir_operand });
            },
        }
        Ok(instructions)
    }

    /// Lowers a statement.
    fn convert_statement(&mut self, statement: &MirStatement) -> (r: Result<Vec<Instruction>, String>)
        requires
            old(self).wf(),
        ensures
            final(self).wf(),
            final(self).state() == stmt_step(old(self).env(), old(self).state(), *statement).0,
            insts_result(r, stmt_step(old(self).env(), old(self).state(), *statement).1),
            old(self).same_frame(final(self)),
    {
        match statement {
            MirStatement::Assign(place, rvalue) => self.convert_assignment(place, rvalue),
            MirStatement::StorageLive(local) => {
                match self.local_mappings.get(local) {
                    Some(wl) => {
                        let w = *wl;
                        self.note_ownership(w, OwnershipState::Owned);
                    },
                    None => {},
                }
                Ok(Vec::new())
            },
            MirStatement::StorageDead(local) => {
                match self.local_mappings.get(local) {
                    Some(wl) => {
                        let w = *wl;
                        self.note_ownership(w, OwnershipState::Consumed);
                    },
                    None => {},
                }
                Ok(Vec::new())
            },
            MirStatement::Nop => {
                let mut v: Vec<Instruction> = Vec::new();
                v.push(Instruction::Nop);
                assert(v@ =~= seq![Instruction::Nop]);
                Ok(v)
            },
        }
    }

    /// Lowers statements in order, stopping at the first error.
    pub fn convert_statements(&mut self, statements: &[MirStatement]) -> (r: Result<
        Vec<Instruction>,
        String,
    >)
        requires
            old(self).wf(),
        ensures
            final(self).wf(),
            final(self).state() == stmts_step(
                old(self).env(),
                old(self).state(),
                statements@,
                statements@.len() as int,
            ).0,
            insts_result(
                r,
                stmts_step(
                    old(self).env(),
                    old(self).state(),
                    statements@,
                    statements@.len() as int,
                ).1,
            ),
            old(self).same_frame(final(self)),
    {
        let ghost e = self.env();
        let ghost s0 = self.state();
        let mut instructions: Vec<Instruction> = Vec::new();
        let n = statements.len();
        let mut i: usize = 0;
        while i < n
            invariant
                0 <= i <= n,
                n == statements@.len(),
                self.wf(),
                old(self).same_frame(self),
                e == old(self).env(),
                s0 == old(self).state(),
                stmts_step(e, s0, statements@, i as int).0 == self.state(),
                stmts_step(e, s0, statements@, i as int).1 matches Ok(x) && insts_eqv(
                    x,
                    instructions@,
                ),
            decreases n - i,
        {
            let ghost before = instructions@;
            let r = self.convert_statement(&statements[i]);
            match r {
                Ok(v) => {
                    let mut v = v;
                    proof {
                        let x = stmts_step(e, s0, statements@, i as int).1->Ok_0;
                        let y = stmt_step(e, stmts_step(e, s0, statements@, i as int).0, statements@[i as int]).1->Ok_0;
                        lemma_insts_eqv_concat(x, before, y, v@);
                    }
                    instructions.append(&mut v);
                },
                Err(m) => {
                    proof {
                        lemma_stmts_err_stays(e, s0, statements@, i + 1, n as int);
                    }
                    return Err(m);
                },
            }
            i = i + 1;
        }
        Ok(instructions)
    }

    /// The block a MIR block number maps to.
    fn lookup_block(&self, b: u32, prefix: &str) -> (r: Result<BlockId, String>)
        ensures
            result_view(r) == block_result(self.env(), b, prefix@),
    {
        match self.block_mappings.get(&b) {
            Some(id) => Ok(*id),
            None => Err(numbered(prefix, b)),
        }
    }

    /// Lowers a terminator.
    pub fn convert_terminator(&mut self, terminator: &MirTerminator) -> (r: Result<Terminator, String>)
        requires
            old(self).wf(),
        ensures
            final(self).wf(),
            final(self).state() == term_step(old(self).env(), old(self).state(), *terminator).0,
            term_result(r, term_step(old(self).env(), old(self).state(), *terminator).1),
            old(self).same_frame(final(self)),
    {
        match terminator {
            MirTerminator::Return => Ok(Terminator::Return { value: None }),
            MirTerminator::Goto { target } => {
                let b = self.lookup_block(*target, "Invalid block target: ")?;
                Ok(Terminator::Jump { target: b })
            },
            MirTerminator::SwitchInt { discr, targets, otherwise } => {
                let condition = self.convert_operand(discr)?;
                let ghost e = self.env();
                let mut wasmir_targets: Vec<(Operand, BlockId)> = Vec::new();
                let n = targets.len();
                let mut i: usize = 0;
                while i < n
                    invariant
                        0 <= i <= n,
                        n == targets@.len(),
                        e == self.env(),
                        self.wf(),
                        old(self).same_frame(self),
                        e == old(self).env(),
                        *terminator == (MirTerminator::SwitchInt {
                            discr: *discr,
                            targets: *targets,
                            otherwise: *otherwise,
                        }),
                        operand_step(e, old(self).state(), *discr) == (
                            self.state(),
                            Ok::<Operand, Seq<char>>(condition),
                        ),
                        targets_result(e, targets@, i as int) == Ok::<
                            Seq<(Operand, BlockId)>,
                            Seq<char>,
                        >(wasmir_targets@),
                    decreases n - i,
                {
                    let (value, target) = targets[i];
                    match self.lookup_block(target, "Invalid switch target: ") {
                        Ok(b) => {
                            wasmir_targets.push((Operand::Constant(Constant::I32(value)), b));
                        },
                        Err(m) => {
                            proof {
                                lemma_targets_err_stays(e, targets@, i + 1, n as int);
                            }
                            return Err(m);
                        },
                    }
                    i = i + 1;
                }
                let default_target = self.lookup_block(*otherwise, "Invalid default target: ")?;
                Ok(
                    Terminator::Switch {
                        value: condition,
                        targets: wasmir_targets,
                        default_target,
                    },
                )
            },
            MirTerminator::Call { func, args, destination } => {
                let _func_operand = self.convert_operand(func)?;
                let ghost e = self.env();
                let ghost s1 = self.state();
                let n = args.len();
                let mut i: usize = 0;
                while i < n
                    invariant
                        0 <= i <= n,
                        n == args@.len(),
                        self.wf(),
                        old(self).same_frame(self),
                        e == old(self).env(),
                        *terminator == (MirTerminator::Call {
                            func: *func,
                            args: *args,
                            destination: *destination,
                        }),
                        operand_step(e, old(self).state(), *func).0 == s1,
                        operand_step(e, old(self).state(), *func).1 is Ok,
                        args_step(e, s1, args@, i as int) == (self.state(), None::<Seq<char>>),
                    decreases n - i,
                {
                    match self.convert_operand(&args[i]) {
                        Ok(_) => {},
                        Err(m) => {
                            proof {
                                lemma_args_err_stays(e, s1, args@, i + 1, n as int);
                            }
                            return Err(m);
                        },
                    }
                    i = i + 1;
                }
                match destination {
                    Some((dest_place, target)) => {
                        let _dest_local = self.convert_place_to_local(dest_place)?;
                        let b = self.lookup_block(*target, "Invalid call target: ")?;
                        Ok(Terminator::Jump { target: b })
                    },
                    None => Ok(Terminator::Unreachable),
                }
            },
            MirTerminator::Unreachable => Ok(Terminator::Unreachable),
        }
    }

    /// Lowers a MIR function to a validated WasmIR function.
    pub fn lower_function(&mut self, mir_func: &MirFunction) -> (r: Result<WasmIR, String>)
        requires
            old(self).wf(),
            mir_func.signature.inputs@.len() + mir_func.local_decls@.len() < u32::MAX,
            mir_func.basic_blocks@.len() <= u32::MAX,
        ensures
            final(self).wf(),
            lowering_outcome(
                old(self).env(),
                old(self).state(),
                *mir_func,
                final(self).env(),
                final(self).state(),
                r,
            ),
            final(self).errors() == old(self).errors(),
            final(self).function() == old(self).function(),
    {
        let ghost e0 = self.env();
        let ghost s0 = self.state();
        let signature = match self.convert_signature(&mir_func.signature) {
            Ok(sig) => sig,
            Err(m) => {
                return Err(m);
            },
        };
        let mut wasmir_func = WasmIR::new(mir_func.name.clone(), signature);
        let p = mir_func.signature.inputs.len();
        let decls = &mir_func.local_decls;
        let nd = decls.len();
        let mut i: usize = 0;
        while i < nd
            invariant
                0 <= i <= nd,
                nd == decls@.len(),
                decls@ == mir_func.local_decls@,
                p == mir_func.signature.inputs@.len(),
                p + nd < u32::MAX,
                self.wf(),
                (self.env(), self.state()) == decls_step(e0, s0, decls@, p as nat, i as int),
                self.errors() == old(self).errors(),
                self.function() == old(self).function(),
                wasmir_func.name@ == mir_func.name@,
                signature_from_mir(mir_func.signature, wasmir_func.signature),
                wasmir_func.signature.params@.len() == p,
                wasmir_func.locals@.len() == i,
                forall|k: int|
                    #![trigger wasmir_func.locals@[k]]
                    0 <= k < i ==> type_from_mir(decls@[k].ty, wasmir_func.locals@[k]),
                wasmir_func.basic_blocks@.len() == 0,
                wasmir_func.capabilities@.len() == 0,
                wasmir_func.ownership_annotations@.len() == 0,
            decreases nd - i,
        {
            let decl = &decls[i];
            let ty = match self.convert_type(&decl.ty) {
                Ok(t) => t,
                Err(m) => {
                    return Err(m);
                },
            };
            let local_index = wasmir_func.add_local(ty);
            let ghost env_before = self.env();
            let ghost debug_before = self.debug_info@;
            self.local_mappings.insert(i as u32, local_index);
            let loc = SourceLocation {
                file: decl.source_info.span.filename.clone(),
                line: decl.source_info.span.line,
                column: decl.source_info.span.column,
            };
            self.debug_info.insert(local_index, copy_location(&loc));
            assert(self.debug_info@.map_values(|l: SourceLocation| location_view(l))
                =~= debug_before.map_values(|l: SourceLocation| location_view(l)).insert(
                local_index,
                location_view(loc),
            ));
            if self.is_linear_type(&decl.ty) {
                let ghost before = self.ownership_tracker.recorded();
                let ghost lv = location_view(loc);
                self.ownership_tracker.set_ownership(local_index, OwnershipState::Owned, loc);
                assert(self.ownership_tracker.recorded().map_values(
                    |a: OwnershipAnnotation| annotation_view(a),
                ) =~= before.map_values(|a: OwnershipAnnotation| annotation_view(a)).push(
                    (local_index, OwnershipState::Owned, lv),
                ));
            }
            i = i + 1;
        }
        let ghost e1 = self.env();
        let ghost s1 = self.state();
        let blocks = &mir_func.basic_blocks;
        let nb = blocks.len();
        let mut b: usize = 0;
        while b < nb
            invariant
                0 <= b <= nb,
                nb == blocks@.len(),
                nb <= u32::MAX,
                self.wf(),
                self.env() == with_block_numbers(e1, b as int),
                self.state() == s1,
                self.errors() == old(self).errors(),
                self.function() == old(self).function(),
            decreases nb - b,
        {
            self.block_mappings.insert(b as u32, BlockId(b));
            b = b + 1;
        }
        let ghost e2 = self.env();
        let ghost mut shapes: Seq<(Seq<Instruction>, TermShape)> = Seq::empty();
        let mut k: usize = 0;
        while k < nb
            invariant
                0 <= k <= nb,
                nb == blocks@.len(),
                blocks@ == mir_func.basic_blocks@,
                e0 == old(self).env(),
                s0 == old(self).state(),
                (e1, s1) == decls_step(
                    e0,
                    s0,
                    mir_func.local_decls@,
                    mir_func.signature.inputs@.len(),
                    mir_func.local_decls@.len() as int,
                ),
                e2 == with_block_numbers(e1, nb as int),
                self.wf(),
                self.env() == e2,
                blocks_step(e2, s1, blocks@, k as int) == (
                    self.state(),
                    Ok::<Seq<(Seq<Instruction>, TermShape)>, Seq<char>>(shapes),
                ),
                self.errors() == old(self).errors(),
                self.function() == old(self).function(),
                wasmir_func.name@ == mir_func.name@,
                signature_from_mir(mir_func.signature, wasmir_func.signature),
                wasmir_func.locals@.len() == mir_func.local_decls@.len(),
                forall|j: int|
                    #![trigger wasmir_func.locals@[j]]
                    0 <= j < mir_func.local_decls@.len() ==> type_from_mir(
                        mir_func.local_decls@[j].ty,
                        wasmir_func.locals@[j],
                    ),
                wasmir_func.basic_blocks@.len() == k,
                shapes.len() == k,
                forall|j: int|
                    #![trigger wasmir_func.basic_blocks@[j]]
                    0 <= j < k ==> {
                        &&& wasmir_func.basic_blocks@[j].id == BlockId(j as usize)
                        &&& insts_eqv(shapes[j].0, wasmir_func.basic_blocks@[j].instructions@)
                        &&& term_is(wasmir_func.basic_blocks@[j].terminator, shapes[j].1)
                    },
                wasmir_func.capabilities@.len() == 0,
                wasmir_func.ownership_annotations@.len() == 0,
            decreases nb - k,
        {
            let bb = &blocks[k];
            let instructions = match self.convert_statements(bb.statements.as_slice()) {
                Ok(v) => v,
                Err(m) => {
                    proof {
                        lemma_blocks_err_stays(e2, s1, blocks@, k + 1, nb as int);
                    }
                    return Err(m);
                },
            };
            let terminator = match self.convert_terminator(&bb.terminator) {
                Ok(t) => t,
                Err(m) => {
                    proof {
                        lemma_blocks_err_stays(e2, s1, blocks@, k + 1, nb as int);
                    }
                    return Err(m);
                },
            };
            let ghost is = stmts_step(
                e2,
                blocks_step(e2, s1, blocks@, k as int).0,
                bb.statements@,
                bb.statements@.len() as int,
            ).1->Ok_0;
            let ghost ts = term_step(
                e2,
                stmts_step(
                    e2,
                    blocks_step(e2, s1, blocks@, k as int).0,
                    bb.statements@,
                    bb.statements@.len() as int,
                ).0,
                bb.terminator,
            ).1->Ok_0;
            wasmir_func.add_basic_block(instructions, terminator);
            proof {
                shapes = shapes.push((is, ts));
            }
            k = k + 1;
        }
        let ghost s2 = self.state();
        let nc = self.required_capabilities.len();
        let ghost w_before = wasmir_func;
        let mut c: usize = 0;
        while c < nc
            invariant
                0 <= c <= nc,
                wasmir_func.name == w_before.name,
                wasmir_func.signature == w_before.signature,
                wasmir_func.locals == w_before.locals,
                wasmir_func.basic_blocks == w_before.basic_blocks,
                wasmir_func.ownership_annotations == w_before.ownership_annotations,
                nc == self.required_capabilities@.len(),
                distinct_capabilities(self.required_capabilities@),
                wasmir_func.capabilities@ == self.required_capabilities@.subrange(0, c as int),
            decreases nc - c,
        {
            let cap = self.required_capabilities[c];
            assert(!self.required_capabilities@.subrange(0, c as int).contains(cap));
            wasmir_func.add_capability(cap);
            assert(wasmir_func.capabilities@ =~= self.required_capabilities@.subrange(
                0,
                c + 1,
            ));
            c = c + 1;
        }
        assert(wasmir_func.capabilities@ =~= self.required_capabilities@);
        let mut tracker = OwnershipTracker::new();
        std::mem::swap(&mut tracker, &mut self.ownership_tracker);
        let mut annotations = tracker.into_annotations();
        wasmir_func.ownership_annotations.append(&mut annotations);
        assert(wasmir_func.ownership_annotations@.map_values(
            |a: OwnershipAnnotation| annotation_view(a),
        ) =~= s2.annotations);
        assert(self.state().annotations =~= Seq::<AnnotationView>::empty());
        assert(lowered(*mir_func, s2, shapes, wasmir_func));
        assert(lowering_blocks(e0, s0, *mir_func) == (
            s2,
            Ok::<Seq<(Seq<Instruction>, TermShape)>, Seq<char>>(shapes),
        ));
        match wasmir_func.validate() {
            Ok(()) => {
                let r = Ok(wasmir_func);
                r
            },
            Err(e) => {
                let m = validation_message(&e);
                assert(wasmir_func.fault() matches Some(f) && m@ == "WasmIR validation failed: "@
                    + fault_text(f));
                let r = Err(m);
                let ghost lb = lowering_blocks(e0, s0, *mir_func);
                assert(exists|w: WasmIR|
                    #![trigger lowered(*mir_func, lb.0, lb.1->Ok_0, w)]
                    lowered(*mir_func, lb.0, lb.1->Ok_0, w) && (w.fault() matches Some(f) && m@
                        == "WasmIR validation failed: "@ + fault_text(f))) by {
                    assert(lowered(*mir_func, lb.0, lb.1->Ok_0, wasmir_func));
                }
                r
            },
        }
    }
}

/// `w` is `name(i32, i32) -> i32` with one block, block 0, that adds the
/// parameters and returns `ret`.
pub open spec fn is_add_function(w: WasmIR, ret: Operand) -> bool {
    &&& w.signature.params@.len() == 2
    &&& w.signature.params@[0] is I32
    &&& w.signature.params@[1] is I32
    &&& w.signature.returns matches Some(t) && t is I32
    &&& w.basic_blocks@.len() == 1
    &&& w.basic_blocks@[0].id == BlockId(0)
    &&& w.basic_blocks@[0].instructions@ == seq![
        Instruction::BinaryOp {
            op: BinaryOp::Add,
            left: Operand::Local(0),
            right: Operand::Local(1),
        },
    ]
    &&& w.basic_blocks@[0].terminator == Terminator::Return { value: Some(ret) }
    &&& w.capabilities@.len() == 0
    &&& w.ownership_annotations@.len() == 0
}

/// A function `name(i32, i32) -> i32` whose one block adds the parameters
/// and returns `ret`.
fn add_function(name: String, ret: Operand) -> (w: WasmIR)
    ensures
        w.name == name,
        is_add_function(w, ret),
        w.locals@.len() == 0,
{
    let mut params: Vec<Type> = Vec::new();
    params.push(Type::I32);
    params.push(Type::I32);
    let signature = Signature { params, returns: Some(Type::I32) };
    let mut w = WasmIR::new(name, signature);
    let mut instructions: Vec<Instruction> = Vec::new();
    instructions.push(
        Instruction::BinaryOp { op: BinaryOp::Add, left: Operand::Local(0), right: Operand::Local(1) },
    );
    w.add_basic_block(instructions, Terminator::Return { value: Some(ret) });
    w
}

proof fn lemma_function_kept(f: WasmIR, contexts: Seq<MirLoweringContext>)
    requires
        contexts.len() > 0,
        contexts[0].function() == Some(f),
        forall|i: int|
            0 <= i < contexts.len() - 1 ==> #[trigger] contexts[i + 1].function()
                == contexts[i].function(),
    ensures
        contexts.last().function() == Some(f),
    decreases contexts.len(),
{
    if contexts.len() > 1 {
        let shorter = contexts.drop_last();
        assert forall|i: int| 0 <= i < shorter.len() - 1 implies #[trigger] shorter[i + 1].function()
            == shorter[i].function() by {
            assert(shorter[i + 1] == contexts[i + 1]);
            assert(contexts[i + 1].function() == contexts[i].function());
        }
        lemma_function_kept(f, shorter);
        let m = contexts.len() - 2;
        assert(contexts[m + 1].function() == contexts[m].function());
        assert(shorter.last() == contexts[m]);
    }
}

/// The function last handed to [`MirLoweringContext::set_function`] is the
/// one [`MirLoweringContext::into_wasmir`] returns, whatever other calls
/// come between. `contexts` are the successive states of one context: the
/// first right after `set_function(f)`, each next one after a call of any
/// other method, all of which keep [`MirLoweringContext::function`] (their
/// `ensures` say so). Then a result `r` that `into_wasmir` may give on the
/// last state is `Ok(f)`.
pub proof fn lemma_into_wasmir_returns_set_function(
    f: WasmIR,
    contexts: Seq<MirLoweringContext>,
    r: Result<WasmIR, String>,
)
    requires
        contexts.len() > 0,
        contexts[0].function() == Some(f),
        forall|i: int|
            0 <= i < contexts.len() - 1 ==> #[trigger] contexts[i + 1].function()
                == contexts[i].function(),
        contexts.last().into_wasmir_result(r),
    ensures
        r == Ok::<WasmIR, String>(f),
{
    lemma_function_kept(f, contexts);
}

/// After recording a state for a local, the tracker reports that state
/// for it, keeps the states of the other locals, and has one more
/// annotation, the one just recorded.
pub proof fn lemma_tracker_get_after_set(
    before: OwnershipTracker,
    after: OwnershipTracker,
    local: u32,
    state: OwnershipState,
    location: SourceLocation,
)
    requires
        after.states() == before.states().insert(local, state),
        after.recorded() == before.recorded().push(
            OwnershipAnnotation { variable: local, state, source_location: location },
        ),
    ensures
        after.states().contains_key(local),
        after.states()[local] == state,
        forall|other: u32|
            other != local ==> (after.states().contains_key(other) == before.states().contains_key(
                other,
            ) && (before.states().contains_key(other) ==> after.states()[other]
                == before.states()[other])),
        after.recorded().len() == before.recorded().len() + 1,
        after.recorded().last().variable == local,
        after.recorded().last().state == state,
{
}

} // verus!
