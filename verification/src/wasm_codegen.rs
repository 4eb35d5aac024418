//! WasmIR to WebAssembly bytes: runs the optimizer and the streaming
//! layout, then emits the type, import, function, export and code sections
//! of a one-function module.
use vstd::prelude::*;
use crate::wasmir::{
    fault_text, validation_message, BasicBlock, BinaryOp, Instruction, Operand, Signature, Terminator, Type, WasmIR,
};
use crate::leb128::{encode_u32, leb128};
use crate::optimize::{
    dce_applied, fold_applied, pass_applied, passes_applied, reachable_block_mask, select,
    select_applied, WasmOptimizer,
};
use crate::fold::{blocks_mapped, fold_instruction, select_instruction};
use crate::layout::{layout_applied, sizes_fit, StreamingLayoutOptimizer};
use crate::backend::{
    current_time, BackendError, BuildProfile, CompilationMetadata, CompilationResult,
    OptimizationLevel,
};
use crate::text::concat;
use crate::render::{instruction_text, push_instruction, push_terminator, push_type, terminator_text, type_text};
use vstd::string::StringExecFns;

verus! {

// ---------------------------------------------------------------------------
// Specification of the emitted bytes
// ---------------------------------------------------------------------------

/// `n` reduced to 8 bits.
pub open spec fn trunc8(n: nat) -> u8 {
    (n % 256) as u8
}

/// `n` reduced to 32 bits.
pub open spec fn trunc32(n: nat) -> u32 {
    (n % 0x1_0000_0000) as u32
}

/// The four little-endian bytes of `v`.
pub open spec fn le32(v: u32) -> Seq<u8> {
    seq![
        (v % 256) as u8,
        ((v / 256) % 256) as u8,
        ((v / 65536) % 256) as u8,
        ((v / 16777216) % 256) as u8,
    ]
}

/// The WebAssembly value type byte of a numeric type.
pub open spec fn value_type_byte(t: Type) -> Option<u8> {
    match t {
        Type::I32 => Some(0x7f),
        Type::I64 => Some(0x7e),
        Type::F32 => Some(0x7d),
        Type::F64 => Some(0x7c),
        _ => None,
    }
}

/// The opcode emitted for a binary operator: the signed `i32` instruction
/// of that operation (`i32.div_s`, `i32.rem_s`, `i32.shr_s`, `i32.lt_s`,
/// `i32.le_s`, `i32.gt_s`, `i32.ge_s` for the signed ones).
pub open spec fn binop_opcode(op: BinaryOp) -> u8 {
    match op {
        BinaryOp::Add => 0x6a,
        BinaryOp::Sub => 0x6b,
        BinaryOp::Mul => 0x6c,
        BinaryOp::Div => 0x6d,
        BinaryOp::Mod => 0x6f,
        BinaryOp::And => 0x71,
        BinaryOp::Or => 0x72,
        BinaryOp::Xor => 0x73,
        BinaryOp::Shl => 0x74,
        BinaryOp::Shr => 0x75,
        BinaryOp::Eq => 0x46,
        BinaryOp::Ne => 0x47,
        BinaryOp::Lt => 0x48,
        BinaryOp::Le => 0x4c,
        BinaryOp::Gt => 0x4a,
        BinaryOp::Ge => 0x4e,
    }
}

/// Bytes of an instruction; `None` for instructions the encoder does not
/// support. Operands are not emitted.
pub open spec fn instruction_bytes(inst: Instruction) -> Option<Seq<u8>> {
    match inst {
        Instruction::LocalGet { index } => Some(seq![0x20u8] + leb128(index)),
        Instruction::LocalSet { index, .. } => Some(seq![0x21u8] + leb128(index)),
        Instruction::BinaryOp { op, .. } => Some(seq![binop_opcode(op)]),
        Instruction::UnaryOp { .. } => Some(seq![0x6au8]),
        Instruction::Return { value: None } => Some(seq![0x0bu8]),
        Instruction::Nop => Some(seq![0x01u8]),
        _ => None,
    }
}

/// Bytes of a terminator; `None` for branches and switches.
pub open spec fn terminator_bytes(t: Terminator) -> Option<Seq<u8>> {
    match t {
        Terminator::Return { .. } => Some(seq![0x0bu8]),
        Terminator::Jump { target } => Some(seq![0x0cu8] + leb128(trunc32(target.0 as nat))),
        Terminator::Unreachable => Some(seq![0x00u8]),
        _ => None,
    }
}

/// Concatenation of two optional byte strings.
pub open spec fn join(a: Option<Seq<u8>>, b: Option<Seq<u8>>) -> Option<Seq<u8>> {
    match (a, b) {
        (Some(x), Some(y)) => Some(x + y),
        _ => None,
    }
}

/// Bytes of the first `k` instructions.
pub open spec fn instructions_bytes(s: Seq<Instruction>, k: int) -> Option<Seq<u8>>
    decreases k,
{
    if k <= 0 {
        Some(Seq::empty())
    } else {
        join(instructions_bytes(s, k - 1), instruction_bytes(s[k - 1]))
    }
}

/// Bytes of a block: its instructions, then its terminator.
pub open spec fn block_bytes(b: BasicBlock) -> Option<Seq<u8>> {
    join(
        instructions_bytes(b.instructions@, b.instructions@.len() as int),
        terminator_bytes(b.terminator),
    )
}

/// Bytes of the first `k` blocks.
pub open spec fn blocks_bytes(s: Seq<BasicBlock>, k: int) -> Option<Seq<u8>>
    decreases k,
{
    if k <= 0 {
        Some(Seq::empty())
    } else {
        join(blocks_bytes(s, k - 1), block_bytes(s[k - 1]))
    }
}

/// Value type bytes of the first `k` types.
pub open spec fn types_bytes(s: Seq<Type>, k: int) -> Option<Seq<u8>>
    decreases k,
{
    if k <= 0 {
        Some(Seq::empty())
    } else {
        join(
            types_bytes(s, k - 1),
            match value_type_byte(s[k - 1]) {
                Some(b) => Some(seq![b]),
                None => None,
            },
        )
    }
}

/// Local declarations of the first `k` locals: one `(1, type)` pair each.
pub open spec fn local_entries(s: Seq<Type>, k: int) -> Option<Seq<u8>>
    decreases k,
{
    if k <= 0 {
        Some(Seq::empty())
    } else {
        join(
            local_entries(s, k - 1),
            match value_type_byte(s[k - 1]) {
                Some(b) => Some(seq![0x01u8, b]),
                None => None,
            },
        )
    }
}

/// The type section: one function type with the signature's parameter and
/// result types.
pub open spec fn type_section_bytes(sig: Signature) -> Option<Seq<u8>> {
    let head = seq![0x01u8, 0x60u8, trunc8(sig.params@.len())];
    let params = types_bytes(sig.params@, sig.params@.len() as int);
    let results = match sig.returns {
        Some(t) => match value_type_byte(t) {
            Some(b) => Some(seq![0x01u8, b]),
            None => None,
        },
        None => Some(seq![0x00u8]),
    };
    join(join(Some(head), params), results)
}

/// The import section: no imports.
pub open spec fn import_section_bytes() -> Seq<u8> {
    seq![0x00u8]
}

/// The function section: one function of type 0.
pub open spec fn function_section_bytes() -> Seq<u8> {
    seq![0x01u8, 0x00u8]
}

/// The function body: the local count, the local declarations, then the
/// code of the blocks in order. Every entry of `w.locals` is declared:
/// parameters are not held there (see the field's documentation).
pub open spec fn function_body_bytes(w: WasmIR) -> Option<Seq<u8>> {
    join(
        join(
            Some(seq![trunc8(w.locals@.len())]),
            local_entries(w.locals@, w.locals@.len() as int),
        ),
        blocks_bytes(w.basic_blocks@, w.basic_blocks@.len() as int),
    )
}

/// The code section: one function body, preceded by its length as four
/// little-endian bytes.
pub open spec fn code_section_bytes(w: WasmIR) -> Option<Seq<u8>> {
    match function_body_bytes(w) {
        Some(body) => Some(seq![0x01u8] + le32(trunc32(body.len())) + body),
        None => None,
    }
}

/// The export section: the function exported under its name as index 0.
pub open spec fn export_section_bytes(w: WasmIR) -> Seq<u8> {
    let name = vstd::utf8::encode_utf8(w.name@);
    seq![0x01u8, trunc8(name.len())] + name + seq![0x00u8, 0x00u8]
}

/// A section with its identifier and length; nothing for an empty body.
pub open spec fn section_bytes(id: u8, body: Seq<u8>) -> Seq<u8> {
    if body.len() == 0 {
        Seq::empty()
    } else {
        seq![id] + leb128(trunc32(body.len())) + body
    }
}

/// The WebAssembly magic number and version 1.
pub open spec fn wasm_header() -> Seq<u8> {
    seq![0x00u8, 0x61u8, 0x73u8, 0x6du8, 0x01u8, 0x00u8, 0x00u8, 0x00u8]
}

/// The module emitted for a function, or `None` when a type, instruction
/// or terminator cannot be encoded.
pub open spec fn module_bytes(w: WasmIR) -> Option<Seq<u8>> {
    match (type_section_bytes(w.signature), code_section_bytes(w)) {
        (Some(t), Some(c)) => Some(
            wasm_header() + section_bytes(0x01, t) + section_bytes(0x02, import_section_bytes())
                + section_bytes(0x03, function_section_bytes()) + section_bytes(
                0x07,
                export_section_bytes(w),
            ) + section_bytes(0x0a, c),
        ),
        _ => None,
    }
}

/// The message of a type that has no WebAssembly value type.
pub open spec fn type_failure_text(t: Type) -> Seq<char> {
    "Type not supported in WASM: "@ + type_text(t)
}

/// The message of an instruction the encoder does not support.
pub open spec fn instruction_failure_text(i: Instruction) -> Seq<char> {
    "Instruction not yet implemented: "@ + instruction_text(i)
}

/// The message of a terminator the encoder does not support.
pub open spec fn terminator_failure_text(t: Terminator) -> Seq<char> {
    "Terminator not yet implemented: "@ + terminator_text(t)
}

/// The message of the first of the first `k` types that has no value type.
pub open spec fn types_failure_text(s: Seq<Type>, k: int) -> Seq<char>
    decreases k,
{
    if k <= 0 {
        Seq::empty()
    } else if types_bytes(s, k - 1) is None {
        types_failure_text(s, k - 1)
    } else {
        type_failure_text(s[k - 1])
    }
}

/// The message of the first of the first `k` locals that has no value type.
pub open spec fn locals_failure_text(s: Seq<Type>, k: int) -> Seq<char>
    decreases k,
{
    if k <= 0 {
        Seq::empty()
    } else if local_entries(s, k - 1) is None {
        locals_failure_text(s, k - 1)
    } else {
        type_failure_text(s[k - 1])
    }
}

/// The message of the first of the first `k` instructions that cannot be
/// encoded.
pub open spec fn instructions_failure_text(s: Seq<Instruction>, k: int) -> Seq<char>
    decreases k,
{
    if k <= 0 {
        Seq::empty()
    } else if instructions_bytes(s, k - 1) is None {
        instructions_failure_text(s, k - 1)
    } else {
        instruction_failure_text(s[k - 1])
    }
}

/// The message of a block that cannot be encoded: its instructions are
/// encoded before its terminator.
pub open spec fn block_failure_text(b: BasicBlock) -> Seq<char> {
    if instructions_bytes(b.instructions@, b.instructions@.len() as int) is None {
        instructions_failure_text(b.instructions@, b.instructions@.len() as int)
    } else {
        terminator_failure_text(b.terminator)
    }
}

/// The message of the first of the first `k` blocks that cannot be encoded.
pub open spec fn blocks_failure_text(s: Seq<BasicBlock>, k: int) -> Seq<char>
    decreases k,
{
    if k <= 0 {
        Seq::empty()
    } else if blocks_bytes(s, k - 1) is None {
        blocks_failure_text(s, k - 1)
    } else {
        block_failure_text(s[k - 1])
    }
}

/// The message of a signature that cannot be encoded: the parameter types
/// come before the result type.
pub open spec fn signature_failure_text(sig: Signature) -> Seq<char> {
    if types_bytes(sig.params@, sig.params@.len() as int) is None {
        types_failure_text(sig.params@, sig.params@.len() as int)
    } else {
        match sig.returns {
            Some(t) => type_failure_text(t),
            None => Seq::empty(),
        }
    }
}

/// The message of a function body that cannot be encoded: the local
/// declarations come before the blocks.
pub open spec fn code_failure_text(w: WasmIR) -> Seq<char> {
    if local_entries(w.locals@, w.locals@.len() as int) is None {
        locals_failure_text(w.locals@, w.locals@.len() as int)
    } else {
        blocks_failure_text(w.basic_blocks@, w.basic_blocks@.len() as int)
    }
}

/// The message of a function whose module cannot be emitted: the type
/// section comes before the code section.
pub open spec fn module_failure_text(w: WasmIR) -> Seq<char> {
    if type_section_bytes(w.signature) is None {
        signature_failure_text(w.signature)
    } else {
        code_failure_text(w)
    }
}

// ---------------------------------------------------------------------------
// Encoders
// ---------------------------------------------------------------------------

fn unsupported_type(t: &Type) -> (e: BackendError)
    ensures
        e matches BackendError::Unsupported(m) && m@ == type_failure_text(*t),
{
    let mut m = String::from_str("Type not supported in WASM: ");
    push_type(&mut m, t);
    BackendError::Unsupported(m)
}

fn unsupported_instruction(i: &Instruction) -> (e: BackendError)
    ensures
        e matches BackendError::Unsupported(m) && m@ == instruction_failure_text(*i),
{
    let mut m = String::from_str("Instruction not yet implemented: ");
    push_instruction(&mut m, i);
    BackendError::Unsupported(m)
}

fn unsupported_terminator(t: &Terminator) -> (e: BackendError)
    ensures
        e matches BackendError::Unsupported(m) && m@ == terminator_failure_text(*t),
{
    let mut m = String::from_str("Terminator not yet implemented: ");
    push_terminator(&mut m, t);
    BackendError::Unsupported(m)
}

/// The value type byte of a numeric type.
pub fn type_to_wasm_type(t: &Type) -> (r: Result<u8, BackendError>)
    ensures
        match value_type_byte(*t) {
            Some(b) => r == Ok::<u8, BackendError>(b),
            None => r matches Err(BackendError::Unsupported(m)) && m@ == type_failure_text(*t),
        },
{
    match t {
        Type::I32 => Ok(0x7f),
        Type::I64 => Ok(0x7e),
        Type::F32 => Ok(0x7d),
        Type::F64 => Ok(0x7c),
        _ => Err(unsupported_type(t)),
    }
}

fn binop_opcode_exec(op: BinaryOp) -> (r: u8)
    ensures
        r == binop_opcode(op),
{
    match op {
        BinaryOp::Add => 0x6a,
        BinaryOp::Sub => 0x6b,
        BinaryOp::Mul => 0x6c,
        BinaryOp::Div => 0x6d,
        BinaryOp::Mod => 0x6f,
        BinaryOp::And => 0x71,
        BinaryOp::Or => 0x72,
        BinaryOp::Xor => 0x73,
        BinaryOp::Shl => 0x74,
        BinaryOp::Shr => 0x75,
        BinaryOp::Eq => 0x46,
        BinaryOp::Ne => 0x47,
        BinaryOp::Lt => 0x48,
        BinaryOp::Le => 0x4c,
        BinaryOp::Gt => 0x4a,
        BinaryOp::Ge => 0x4e,
    }
}

/// Appends the bytes of an instruction.
pub fn encode_instruction(instruction: &Instruction, output: &mut Vec<u8>) -> (r: Result<
    (),
    BackendError,
>)
    ensures
        match instruction_bytes(*instruction) {
            Some(b) => r is Ok && final(output)@ == old(output)@ + b,
            None => r matches Err(BackendError::Unsupported(m)) && m@ == instruction_failure_text(*instruction)
                && final(output)@ == old(output)@,
        },
{
    match instruction {
        Instruction::LocalGet { index } => {
            output.push(0x20);
            encode_u32(*index, output);
            assert(output@ =~= old(output)@ + (seq![0x20u8] + leb128(*index)));
        },
        Instruction::LocalSet { index, .. } => {
            output.push(0x21);
            encode_u32(*index, output);
            assert(output@ =~= old(output)@ + (seq![0x21u8] + leb128(*index)));
        },
        Instruction::BinaryOp { op, .. } => {
            output.push(binop_opcode_exec(*op));
            assert(output@ =~= old(output)@ + seq![binop_opcode(*op)]);
        },
        Instruction::UnaryOp { .. } => {
            output.push(0x6a);
            assert(output@ =~= old(output)@ + seq![0x6au8]);
        },
        Instruction::Return { value: None } => {
            output.push(0x0b);
            assert(output@ =~= old(output)@ + seq![0x0bu8]);
        },
        Instruction::Nop => {
            output.push(0x01);
            assert(output@ =~= old(output)@ + seq![0x01u8]);
        },
        _ => {
            return Err(unsupported_instruction(instruction));
        },
    }
    Ok(())
}

fn block_number_u32(b: usize) -> (r: u32)
    ensures
        r == trunc32(b as nat),
{
    (b as u64 % 0x1_0000_0000u64) as u32
}

/// Appends the bytes of a terminator.
pub fn encode_terminator(terminator: &Terminator, output: &mut Vec<u8>) -> (r: Result<
    (),
    BackendError,
>)
    ensures
        match terminator_bytes(*terminator) {
            Some(b) => r is Ok && final(output)@ == old(output)@ + b,
            None => r matches Err(BackendError::Unsupported(m)) && m@ == terminator_failure_text(*terminator)
                && final(output)@ == old(output)@,
        },
{
    match terminator {
        Terminator::Return { .. } => {
            output.push(0x0b);
            assert(output@ =~= old(output)@ + seq![0x0bu8]);
        },
        Terminator::Jump { target } => {
            output.push(0x0c);
            let t = block_number_u32(target.0);
            encode_u32(t, output);
            assert(output@ =~= old(output)@ + (seq![0x0cu8] + leb128(t)));
        },
        Terminator::Unreachable => {
            output.push(0x00);
            assert(output@ =~= old(output)@ + seq![0x00u8]);
        },
        _ => {
            return Err(unsupported_terminator(terminator));
        },
    }
    Ok(())
}

fn encode_instructions(s: &Vec<Instruction>, output: &mut Vec<u8>) -> (r: Result<(), BackendError>)
    ensures
        match instructions_bytes(s@, s@.len() as int) {
            Some(b) => r is Ok && final(output)@ == old(output)@ + b,
            None => r matches Err(BackendError::Unsupported(m)) && m@ == instructions_failure_text(s@, s@.len() as int),
        },
{
    let n = s.len();
    let mut i: usize = 0;
    while i < n
        invariant
            0 <= i <= n,
            n == s@.len(),
            instructions_bytes(s@, i as int) matches Some(b) && output@ == old(output)@ + b,
        decreases n - i,
    {
        let ghost before = output@;
        let r = encode_instruction(&s[i], output);
        if r.is_err() {
            proof {
                lemma_instructions_none_stays(s@, i + 1, n as int);
                lemma_instructions_failure_stays(s@, i as int, n as int);
            }
            return r;
        }
        proof {
            let b = instructions_bytes(s@, i as int)->Some_0;
            let c = instruction_bytes(s@[i as int])->Some_0;
            assert(output@ =~= old(output)@ + (b + c));
        }
        i = i + 1;
    }
    Ok(())
}

proof fn lemma_instructions_none_stays(s: Seq<Instruction>, k: int, k2: int)
    requires
        0 <= k <= k2,
        instructions_bytes(s, k) is None,
    ensures
        instructions_bytes(s, k2) is None,
    decreases k2,
{
    if k2 > k {
        lemma_instructions_none_stays(s, k, k2 - 1);
    }
}

proof fn lemma_blocks_none_stays(s: Seq<BasicBlock>, k: int, k2: int)
    requires
        0 <= k <= k2,
        blocks_bytes(s, k) is None,
    ensures
        blocks_bytes(s, k2) is None,
    decreases k2,
{
    if k2 > k {
        lemma_blocks_none_stays(s, k, k2 - 1);
    }
}

proof fn lemma_types_none_stays(s: Seq<Type>, k: int, k2: int)
    requires
        0 <= k <= k2,
        types_bytes(s, k) is None,
    ensures
        types_bytes(s, k2) is None,
    decreases k2,
{
    if k2 > k {
        lemma_types_none_stays(s, k, k2 - 1);
    }
}

proof fn lemma_entries_none_stays(s: Seq<Type>, k: int, k2: int)
    requires
        0 <= k <= k2,
        local_entries(s, k) is None,
    ensures
        local_entries(s, k2) is None,
    decreases k2,
{
    if k2 > k {
        lemma_entries_none_stays(s, k, k2 - 1);
    }
}

proof fn lemma_instructions_failure_stays(s: Seq<Instruction>, i: int, k2: int)
    requires
        0 <= i < k2,
        instructions_bytes(s, i) is Some,
        instruction_bytes(s[i]) is None,
    ensures
        instructions_failure_text(s, k2) == instruction_failure_text(s[i]),
    decreases k2,
{
    if k2 > i + 1 {
        lemma_instructions_failure_stays(s, i, k2 - 1);
        lemma_instructions_none_stays(s, i + 1, k2 - 1);
    }
}

proof fn lemma_types_failure_stays(s: Seq<Type>, i: int, k2: int)
    requires
        0 <= i < k2,
        types_bytes(s, i) is Some,
        value_type_byte(s[i]) is None,
    ensures
        types_failure_text(s, k2) == type_failure_text(s[i]),
    decreases k2,
{
    if k2 > i + 1 {
        lemma_types_failure_stays(s, i, k2 - 1);
        lemma_types_none_stays(s, i + 1, k2 - 1);
    }
}

proof fn lemma_locals_failure_stays(s: Seq<Type>, i: int, k2: int)
    requires
        0 <= i < k2,
        local_entries(s, i) is Some,
        value_type_byte(s[i]) is None,
    ensures
        locals_failure_text(s, k2) == type_failure_text(s[i]),
    decreases k2,
{
    if k2 > i + 1 {
        lemma_locals_failure_stays(s, i, k2 - 1);
        lemma_entries_none_stays(s, i + 1, k2 - 1);
    }
}

proof fn lemma_blocks_failure_stays(s: Seq<BasicBlock>, i: int, k2: int)
    requires
        0 <= i < k2,
        blocks_bytes(s, i) is Some,
        block_bytes(s[i]) is None,
    ensures
        blocks_failure_text(s, k2) == block_failure_text(s[i]),
    decreases k2,
{
    if k2 > i + 1 {
        lemma_blocks_failure_stays(s, i, k2 - 1);
        lemma_blocks_none_stays(s, i + 1, k2 - 1);
    }
}

fn encode_blocks(s: &Vec<BasicBlock>, output: &mut Vec<u8>) -> (r: Result<(), BackendError>)
    ensures
        match blocks_bytes(s@, s@.len() as int) {
            Some(b) => r is Ok && final(output)@ == old(output)@ + b,
            None => r matches Err(BackendError::Unsupported(m)) && m@ == blocks_failure_text(
                s@,
                s@.len() as int,
            ),
        },
{
    let n = s.len();
    let mut i: usize = 0;
    while i < n
        invariant
            0 <= i <= n,
            n == s@.len(),
            blocks_bytes(s@, i as int) matches Some(b) && output@ == old(output)@ + b,
        decreases n - i,
    {
        let ghost before = output@;
        let r1 = encode_instructions(&s[i].instructions, output);
        if r1.is_err() {
            proof {
                lemma_blocks_none_stays(s@, i + 1, n as int);
                lemma_blocks_failure_stays(s@, i as int, n as int);
            }
            return r1;
        }
        let r2 = encode_terminator(&s[i].terminator, output);
        if r2.is_err() {
            proof {
                lemma_blocks_none_stays(s@, i + 1, n as int);
                lemma_blocks_failure_stays(s@, i as int, n as int);
            }
            return r2;
        }
        proof {
            let b = blocks_bytes(s@, i as int)->Some_0;
            let c = block_bytes(s@[i as int])->Some_0;
            assert(output@ =~= old(output)@ + (b + c));
        }
        i = i + 1;
    }
    Ok(())
}

fn push_le32(v: u32, output: &mut Vec<u8>)
    ensures
        final(output)@ == old(output)@ + le32(v),
{
    output.push((v % 256) as u8);
    output.push(((v / 256) % 256) as u8);
    output.push(((v / 65536) % 256) as u8);
    output.push(((v / 16777216) % 256) as u8);
    assert(output@ =~= old(output)@ + le32(v));
}

fn len_u32(n: usize) -> (r: u32)
    ensures
        r == trunc32(n as nat),
{
    (n as u64 % 0x1_0000_0000u64) as u32
}

fn len_u8(n: usize) -> (r: u8)
    ensures
        r == trunc8(n as nat),
{
    (n % 256) as u8
}

/// Appends a section: its identifier, its length in LEB128 and its body;
/// nothing for an empty body.
fn append_section(out: &mut Vec<u8>, id: u8, body: &Vec<u8>)
    ensures
        final(out)@ == old(out)@ + section_bytes(id, body@),
{
    if body.len() == 0 {
        assert(out@ =~= old(out)@ + section_bytes(id, body@));
        return;
    }
    out.push(id);
    encode_u32(len_u32(body.len()), out);
    let mut i: usize = 0;
    let ghost mid = out@;
    while i < body.len()
        invariant
            0 <= i <= body@.len(),
            out@ == mid + body@.subrange(0, i as int),
        decreases body@.len() - i,
    {
        out.push(body[i]);
        assert(out@ =~= mid + body@.subrange(0, i + 1));
        i = i + 1;
    }
    assert(body@.subrange(0, body@.len() as int) =~= body@);
    assert(out@ =~= old(out)@ + section_bytes(id, body@));
}

/// The type section of a signature.
fn type_section_of(sig: &Signature) -> (r: Result<Vec<u8>, BackendError>)
    ensures
        match type_section_bytes(*sig) {
            Some(b) => r matches Ok(v) && v@ == b,
            None => r matches Err(BackendError::Unsupported(m)) && m@ == signature_failure_text(*sig),
        },
{
    let mut section_bytes: Vec<u8> = Vec::new();
    section_bytes.push(0x01);
    section_bytes.push(0x60);
    let params = &sig.params;
    section_bytes.push(len_u8(params.len()));
    let ghost head = section_bytes@;
    let n = params.len();
    let mut i: usize = 0;
    while i < n
        invariant
            0 <= i <= n,
            n == params@.len(),
            params@ == sig.params@,
            head == seq![0x01u8, 0x60u8, trunc8(sig.params@.len())],
            types_bytes(params@, i as int) matches Some(b) && section_bytes@ == head + b,
        decreases n - i,
    {
        match type_to_wasm_type(&params[i]) {
            Ok(b) => {
                section_bytes.push(b);
                proof {
                    let prev = types_bytes(params@, i as int)->Some_0;
                    assert(section_bytes@ =~= head + (prev + seq![b]));
                }
            },
            Err(e) => {
                proof {
                    lemma_types_none_stays(params@, i + 1, n as int);
                    lemma_types_failure_stays(params@, i as int, n as int);
                }
                return Err(e);
            },
        }
        i = i + 1;
    }
    let ghost mid = section_bytes@;
    match &sig.returns {
        Some(return_type) => {
            let b = type_to_wasm_type(return_type)?;
            section_bytes.push(0x01);
            section_bytes.push(b);
            assert(section_bytes@ =~= mid + seq![0x01u8, b]);
        },
        None => {
            section_bytes.push(0x00);
            assert(section_bytes@ =~= mid + seq![0x00u8]);
        },
    }
    Ok(section_bytes)
}

/// The code section of a function.
fn code_section_of(wasmir: &WasmIR) -> (r: Result<Vec<u8>, BackendError>)
    ensures
        match code_section_bytes(*wasmir) {
            Some(b) => r matches Ok(v) && v@ == b,
            None => r matches Err(BackendError::Unsupported(m)) && m@ == code_failure_text(*wasmir),
        },
{
    let mut function_body: Vec<u8> = Vec::new();
    let locals = &wasmir.locals;
    let n = locals.len();
    function_body.push(len_u8(n));
    let ghost head = function_body@;
    let mut i: usize = 0;
    while i < n
        invariant
            0 <= i <= n,
            n == locals@.len(),
            locals@ == wasmir.locals@,
            head == seq![trunc8(wasmir.locals@.len())],
            local_entries(locals@, i as int) matches Some(b) && function_body@ == head + b,
        decreases n - i,
    {
        match type_to_wasm_type(&locals[i]) {
            Ok(b) => {
                function_body.push(0x01);
                function_body.push(b);
                proof {
                    let prev = local_entries(locals@, i as int)->Some_0;
                    assert(function_body@ =~= head + (prev + seq![0x01u8, b]));
                }
            },
            Err(e) => {
                proof {
                    lemma_entries_none_stays(locals@, i + 1, n as int);
                    lemma_locals_failure_stays(locals@, i as int, n as int);
                }
                return Err(e);
            },
        }
        i = i + 1;
    }
    let ghost mid = function_body@;
    encode_blocks(&wasmir.basic_blocks, &mut function_body)?;
    proof {
        let e = local_entries(locals@, n as int)->Some_0;
        let c = blocks_bytes(wasmir.basic_blocks@, wasmir.basic_blocks@.len() as int)->Some_0;
        assert(function_body@ =~= (head + e) + c);
    }
    let body_size = len_u32(function_body.len());
    let mut section: Vec<u8> = Vec::new();
    section.push(0x01);
    push_le32(body_size, &mut section);
    let ghost pre = section@;
    let mut k: usize = 0;
    while k < function_body.len()
        invariant
            0 <= k <= function_body@.len(),
            section@ == pre + function_body@.subrange(0, k as int),
        decreases function_body@.len() - k,
    {
        section.push(function_body[k]);
        assert(section@ =~= pre + function_body@.subrange(0, k + 1));
        k = k + 1;
    }
    assert(function_body@.subrange(0, function_body@.len() as int) =~= function_body@);
    assert(section@ =~= seq![0x01u8] + le32(body_size) + function_body@);
    Ok(section)
}

/// The result of compiling `w` to `bytes`: the module, one symbol for the
/// function at offset 0, no relocations, and the fixed metadata.
pub open spec fn compiled_result(res: CompilationResult, bytes: Seq<u8>, w: WasmIR) -> bool {
    &&& res.code@ == bytes
    &&& res.symbols@.len() == 1
    &&& res.symbols@[0].0@ == w.name@
    &&& res.symbols@[0].1 == 0
    &&& res.relocations@.len() == 0
    &&& res.metadata.target@ == "wasm32-unknown-unknown"@
    &&& res.metadata.optimization_level == OptimizationLevel::Standard
    &&& res.metadata.build_profile == BuildProfile::Development
}

/// WebAssembly code generator for one function.
pub struct WasmCodegen {
    wasm_bytes: Vec<u8>,
    function_section: Vec<u8>,
    code_section: Vec<u8>,
    type_section: Vec<u8>,
    export_section: Vec<u8>,
    import_section: Vec<u8>,
    streaming_optimizer: StreamingLayoutOptimizer,
    wasm_optimizer: WasmOptimizer,
}

impl WasmCodegen {
    /// The generator is ready: its optimizer runs the standard passes and
    /// its layout optimizer is enabled.
    pub closed spec fn wf(&self) -> bool {
        &&& self.wasm_optimizer.passes() == WasmOptimizer::standard_passes()
        &&& self.wasm_optimizer.is_enabled()
        &&& self.streaming_optimizer.is_enabled()
    }

    /// The bytes of the last module emitted.
    pub closed spec fn emitted(&self) -> Seq<u8> {
        self.wasm_bytes@
    }

    /// A generator that has emitted nothing.
    pub fn new() -> (r: WasmCodegen)
        ensures
            r.wf(),
            r.emitted().len() == 0,
            r.function_section_view().len() == 0,
            r.code_section_view().len() == 0,
    {
        WasmCodegen {
            wasm_bytes: Vec::new(),
            function_section: Vec::new(),
            code_section: Vec::new(),
            type_section: Vec::new(),
            export_section: Vec::new(),
            import_section: Vec::new(),
            streaming_optimizer: StreamingLayoutOptimizer::new(),
            wasm_optimizer: WasmOptimizer::new(),
        }
    }

    /// The bytes of the last module emitted.
    pub fn wasm_bytes(&self) -> (r: &Vec<u8>)
        ensures
            r@ == self.emitted(),
    {
        &self.wasm_bytes
    }

    /// The function section of the last compilation.
    pub closed spec fn function_section_view(&self) -> Seq<u8> {
        self.function_section@
    }

    /// The code section of the last compilation.
    pub closed spec fn code_section_view(&self) -> Seq<u8> {
        self.code_section@
    }

    /// The function section of the last compilation.
    pub fn function_section(&self) -> (r: &Vec<u8>)
        ensures
            r@ == self.function_section_view(),
    {
        &self.function_section
    }

    /// The code section of the last compilation.
    pub fn code_section(&self) -> (r: &Vec<u8>)
        ensures
            r@ == self.code_section_view(),
    {
        &self.code_section
    }

    /// The WASM-specific optimizer.
    pub fn wasm_optimizer(&self) -> (r: &WasmOptimizer)
        ensures
            self.wf() ==> r.passes() == WasmOptimizer::standard_passes() && r.is_enabled(),
    {
        &self.wasm_optimizer
    }


    /// Compiles a function to a WebAssembly module. The function is first
    /// validated, then optimized (dead code elimination, constant folding,
    /// instruction selection) and laid out for streaming; the optimized
    /// function is left in `wasmir`.
    pub fn compile(&mut self, wasmir: &mut WasmIR) -> (r: Result<CompilationResult, BackendError>)
        requires
            old(self).wf(),
            sizes_fit(old(wasmir).basic_blocks@),
        ensures
            final(self).wf(),
            old(wasmir).fault() matches Some(f) ==> (r matches Err(BackendError::CompilationFailed(m))
                && m@ == "WasmIR validation failed: "@ + fault_text(f) && *final(wasmir) == *old(wasmir)),
            old(wasmir).fault() is None ==> exists|o: WasmIR|
                {
                    &&& passes_applied(WasmOptimizer::standard_passes(), 3, *old(wasmir), o)
                    &&& #[trigger] layout_applied(o, *final(wasmir))
                },
            old(wasmir).fault() is None ==> match module_bytes(*final(wasmir)) {
                Some(bytes) => (r matches Ok(res) && final(self).emitted() == bytes
                    && compiled_result(res, bytes, *final(wasmir)) && final(self).function_section_view()
                    == function_section_bytes() && code_section_bytes(*final(wasmir)) == Some(
                    final(self).code_section_view(),
                )),
                None => r matches Err(BackendError::Unsupported(m)) && m@ == module_failure_text(
                    *final(wasmir),
                ),
            },
    {
        match wasmir.validate() {
            Ok(()) => {},
            Err(e) => {
                return Err(BackendError::CompilationFailed(validation_message(&e)));
            },
        }
        let ghost w0 = *wasmir;
        let _ = self.wasm_optimizer.apply_optimizations(wasmir);
        let ghost w1 = *wasmir;
        proof {
            lemma_passes_keep_sizes(w0, w1);
        }
        let _ = self.streaming_optimizer.optimize_layout(wasmir);
        assert(layout_applied(w1, *wasmir));
        self.generate_type_section(wasmir)?;
        self.generate_import_section(wasmir)?;
        self.generate_function_section(wasmir)?;
        match self.generate_code_section(wasmir) {
            Ok(()) => {},
            Err(e) => {
                return Err(e);
            },
        }
        self.generate_export_section(wasmir)?;
        self.assemble_wasm_module();
        let mut symbols: Vec<(String, u64)> = Vec::new();
        symbols.push((wasmir.name.clone(), 0));
        proof {
            reveal_strlit("wasm32-unknown-unknown");
        }
        Ok(CompilationResult {
            code: self.wasm_bytes.clone(),
            symbols,
            relocations: Vec::new(),
            metadata: CompilationMetadata {
                target: String::from_str("wasm32-unknown-unknown"),
                optimization_level: OptimizationLevel::Standard,
                build_profile: BuildProfile::Development,
                timestamp: current_time(),
            },
        })
    }

    /// Builds the type section from the function's signature.
    fn generate_type_section(&mut self, wasmir: &WasmIR) -> (r: Result<(), BackendError>)
        ensures
            final(self).wf() == old(self).wf(),
            final(self).emitted() == old(self).emitted(),
            match type_section_bytes(wasmir.signature) {
                Some(b) => r is Ok && final(self).type_section@ == b,
                None => r matches Err(BackendError::Unsupported(m)) && m@ == signature_failure_text(wasmir.signature),
            },
            final(self).import_section == old(self).import_section,
            final(self).function_section == old(self).function_section,
            final(self).code_section == old(self).code_section,
            final(self).export_section == old(self).export_section,
    {
        self.type_section.clear();
        let section = type_section_of(&wasmir.signature)?;
        self.type_section = section;
        Ok(())
    }

    /// Builds the import section (no imports).
    fn generate_import_section(&mut self, wasmir: &WasmIR) -> (r: Result<(), BackendError>)
        ensures
            r is Ok,
            final(self).wf() == old(self).wf(),
            final(self).emitted() == old(self).emitted(),
            final(self).import_section@ == import_section_bytes(),
            final(self).type_section == old(self).type_section,
            final(self).function_section == old(self).function_section,
            final(self).code_section == old(self).code_section,
            final(self).export_section == old(self).export_section,
    {
        self.import_section.clear();
        self.import_section.push(0x00);
        assert(self.import_section@ =~= import_section_bytes());
        Ok(())
    }

    /// Builds the function section (one function of type 0).
    fn generate_function_section(&mut self, wasmir: &WasmIR) -> (r: Result<(), BackendError>)
        ensures
            r is Ok,
            final(self).wf() == old(self).wf(),
            final(self).emitted() == old(self).emitted(),
            final(self).function_section@ == function_section_bytes(),
            final(self).type_section == old(self).type_section,
            final(self).import_section == old(self).import_section,
            final(self).code_section == old(self).code_section,
            final(self).export_section == old(self).export_section,
    {
        self.function_section.clear();
        self.function_section.push(0x01);
        self.function_section.push(0x00);
        assert(self.function_section@ =~= function_section_bytes());
        Ok(())
    }

    /// Builds the code section: local declarations, then the code of each
    /// block in order.
    fn generate_code_section(&mut self, wasmir: &WasmIR) -> (r: Result<(), BackendError>)
        ensures
            final(self).wf() == old(self).wf(),
            final(self).emitted() == old(self).emitted(),
            match code_section_bytes(*wasmir) {
                Some(b) => r is Ok && final(self).code_section@ == b,
                None => r matches Err(BackendError::Unsupported(m)) && m@ == code_failure_text(*wasmir),
            },
            final(self).type_section == old(self).type_section,
            final(self).import_section == old(self).import_section,
            final(self).function_section == old(self).function_section,
            final(self).export_section == old(self).export_section,
    {
        self.code_section.clear();
        let section = code_section_of(wasmir)?;
        self.code_section = section;
        Ok(())
    }

    /// Builds the export section: the function under its own name.
    fn generate_export_section(&mut self, wasmir: &WasmIR) -> (r: Result<(), BackendError>)
        ensures
            r is Ok,
            final(self).wf() == old(self).wf(),
            final(self).emitted() == old(self).emitted(),
            final(self).export_section@ == export_section_bytes(*wasmir),
            final(self).type_section == old(self).type_section,
            final(self).import_section == old(self).import_section,
            final(self).function_section == old(self).function_section,
            final(self).code_section == old(self).code_section,
    {
        self.export_section.clear();
        let name = wasmir.name.as_str().as_bytes();
        let mut section: Vec<u8> = Vec::new();
        section.push(0x01);
        section.push(len_u8(name.len()));
        let ghost pre = section@;
        let mut k: usize = 0;
        while k < name.len()
            invariant
                0 <= k <= name@.len(),
                section@ == pre + name@.subrange(0, k as int),
            decreases name@.len() - k,
        {
            section.push(name[k]);
            assert(section@ =~= pre + name@.subrange(0, k + 1));
            k = k + 1;
        }
        section.push(0x00);
        section.push(0x00);
        assert(name@.subrange(0, name@.len() as int) =~= name@);
        assert(section@ =~= export_section_bytes(*wasmir));
        self.export_section = section;
        Ok(())
    }

    /// Assembles the module from the sections built.
    fn assemble_wasm_module(&mut self)
        ensures
            final(self).wf() == old(self).wf(),
            final(self).function_section == old(self).function_section,
            final(self).code_section == old(self).code_section,
            final(self).emitted() == wasm_header() + section_bytes(0x01, old(self).type_section@)
                + section_bytes(0x02, old(self).import_section@) + section_bytes(
                0x03,
                old(self).function_section@,
            ) + section_bytes(0x07, old(self).export_section@) + section_bytes(
                0x0a,
                old(self).code_section@,
            ),
    {
        let mut out: Vec<u8> = Vec::new();
        out.push(0x00);
        out.push(0x61);
        out.push(0x73);
        out.push(0x6d);
        out.push(0x01);
        out.push(0x00);
        out.push(0x00);
        out.push(0x00);
        assert(out@ =~= wasm_header());
        append_section(&mut out, 0x01, &self.type_section);
        append_section(&mut out, 0x02, &self.import_section);
        append_section(&mut out, 0x03, &self.function_section);
        append_section(&mut out, 0x07, &self.export_section);
        append_section(&mut out, 0x0a, &self.code_section);
        self.wasm_bytes = out;
    }
}

proof fn lemma_select_sizes(s: Seq<BasicBlock>, keep: Seq<bool>, k: int)
    requires
        0 <= k <= s.len(),
        sizes_fit(s),
    ensures
        sizes_fit(select(s, keep, k)),
    decreases k,
{
    if k > 0 {
        lemma_select_sizes(s, keep, k - 1);
        let prev = select(s, keep, k - 1);
        if keep[k - 1] {
            assert forall|i: int| 0 <= i < prev.push(s[k - 1]).len() implies #[trigger] prev.push(
                s[k - 1],
            )[i].instructions@.len() < usize::MAX by {
                if i < prev.len() {
                    assert(prev.push(s[k - 1])[i] == prev[i]);
                } else {
                    assert(prev.push(s[k - 1])[i] == s[k - 1]);
                }
            }
        }
    }
}

proof fn lemma_mapped_sizes(
    a: Seq<BasicBlock>,
    b: Seq<BasicBlock>,
    f: spec_fn(Instruction) -> Instruction,
)
    requires
        sizes_fit(a),
        blocks_mapped(a, b, f),
    ensures
        sizes_fit(b),
{
    assert forall|i: int| 0 <= i < b.len() implies #[trigger] b[i].instructions@.len()
        < usize::MAX by {
        assert(b[i].instructions@ == a[i].instructions@.map_values(f));
        assert(a[i].instructions@.len() < usize::MAX);
    }
}

proof fn lemma_passes_keep_sizes(o: WasmIR, n: WasmIR)
    requires
        sizes_fit(o.basic_blocks@),
        passes_applied(WasmOptimizer::standard_passes(), 3, o, n),
    ensures
        sizes_fit(n.basic_blocks@),
{
    let ps = WasmOptimizer::standard_passes();
    let m2 = choose|m: WasmIR| passes_applied(ps, 2, o, m) && #[trigger] pass_applied(ps[2], m, n);
    let m1 = choose|m: WasmIR|
        passes_applied(ps, 1, o, m) && #[trigger] pass_applied(ps[1], m, m2);
    let m0 = choose|m: WasmIR|
        passes_applied(ps, 0, o, m) && #[trigger] pass_applied(ps[0], m, m1);
    assert(m0 == o);
    assert(dce_applied(o, m1));
    lemma_select_sizes(
        o.basic_blocks@,
        reachable_block_mask(o.basic_blocks@),
        o.basic_blocks@.len() as int,
    );
    assert(fold_applied(m1, m2));
    lemma_mapped_sizes(m1.basic_blocks@, m2.basic_blocks@, |x: Instruction| fold_instruction(x));
    assert(select_applied(m2, n));
    lemma_mapped_sizes(m2.basic_blocks@, n.basic_blocks@, |x: Instruction| select_instruction(x));
}

/// Every module the code generator emits starts with the WebAssembly
/// magic number and version 1.
pub proof fn lemma_module_starts_with_header(w: WasmIR)
    requires
        module_bytes(w) is Some,
    ensures
        module_bytes(w)->Some_0.len() >= 8,
        module_bytes(w)->Some_0.subrange(0, 8) == wasm_header(),
{
    let b = module_bytes(w)->Some_0;
    let t = type_section_bytes(w.signature)->Some_0;
    let c = code_section_bytes(w)->Some_0;
    let rest = section_bytes(0x01, t) + section_bytes(0x02, import_section_bytes()) + section_bytes(
        0x03,
        function_section_bytes(),
    ) + section_bytes(0x07, export_section_bytes(w)) + section_bytes(0x0a, c);
    assert(b =~= wasm_header() + rest);
    assert((wasm_header() + rest).subrange(0, 8) =~= wasm_header());
}

/// The binary `i32` operation a WebAssembly opcode stands for, as the
/// WebAssembly specification numbers them; `None` for opcodes of other
/// instructions and for the unsigned variants, which have no operator here.
pub open spec fn wasm_i32_binary_op(b: u8) -> Option<BinaryOp> {
    if b == 0x46 {
        Some(BinaryOp::Eq)
    } else if b == 0x47 {
        Some(BinaryOp::Ne)
    } else if b == 0x48 {
        Some(BinaryOp::Lt)
    } else if b == 0x4a {
        Some(BinaryOp::Gt)
    } else if b == 0x4c {
        Some(BinaryOp::Le)
    } else if b == 0x4e {
        Some(BinaryOp::Ge)
    } else if b == 0x6a {
        Some(BinaryOp::Add)
    } else if b == 0x6b {
        Some(BinaryOp::Sub)
    } else if b == 0x6c {
        Some(BinaryOp::Mul)
    } else if b == 0x6d {
        Some(BinaryOp::Div)
    } else if b == 0x6f {
        Some(BinaryOp::Mod)
    } else if b == 0x71 {
        Some(BinaryOp::And)
    } else if b == 0x72 {
        Some(BinaryOp::Or)
    } else if b == 0x73 {
        Some(BinaryOp::Xor)
    } else if b == 0x74 {
        Some(BinaryOp::Shl)
    } else if b == 0x75 {
        Some(BinaryOp::Shr)
    } else {
        None
    }
}

/// A binary operation is emitted as the single WebAssembly `i32`
/// instruction that performs that operation, so distinct operators get
/// distinct opcodes.
pub proof fn lemma_binary_op_encoding(op: BinaryOp, left: Operand, right: Operand)
    ensures
        instruction_bytes(Instruction::BinaryOp { op, left, right }) matches Some(bytes)
            && bytes.len() == 1 && wasm_i32_binary_op(bytes[0]) == Some(op),
        forall|other: BinaryOp| #[trigger] binop_opcode(other) == binop_opcode(op) ==> other == op,
{
    assert forall|other: BinaryOp| #[trigger] binop_opcode(other) == binop_opcode(op) implies other
        == op by {
        assert(wasm_i32_binary_op(binop_opcode(other)) == Some(other));
        assert(wasm_i32_binary_op(binop_opcode(op)) == Some(op));
    }
}

} // verus!
