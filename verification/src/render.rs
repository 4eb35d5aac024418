//! Text renderings of IR values, in the form Rust's `{:?}` gives them
//! (`Call { func_ref: 1, args: [Local(0)] }`), used in the messages of the
//! code generator. Floating-point constants, which this library carries by
//! their bit patterns, are shown by those bits.
use vstd::prelude::*;
use crate::text::{decimal, push_decimal};
use crate::wasmir::{
    BinaryOp, BlockId, Constant, Instruction, LinearOp, Operand, Terminator, Type, UnaryOp,
};
use vstd::string::StringExecFns;

verus! {

/// The text `{:?}` gives for a string: the string between double quotes,
/// with quotes, backslashes and other special characters escaped.
pub uninterp spec fn quoted(s: Seq<char>) -> Seq<char>;

/// A character that `{:?}` shows as itself inside a quoted string: an
/// ASCII letter, digit, space or punctuation mark other than `"`, `'` and
/// `\`.
pub open spec fn plain_char(c: char) -> bool {
    ' ' <= c <= '~' && c != '"' && c != '\'' && c != '\\'
}

/// Renders a string as `{:?}` does (`<str as Debug>::fmt`). The text is
/// named; for a string of plain characters it is stated: the string
/// between double quotes.
#[verifier::external_body]
fn quote(s: &str) -> (r: String)
    ensures
        r@ == quoted(s@),
        (forall|i: int| 0 <= i < s@.len() ==> plain_char(#[trigger] s@[i])) ==> r@ == "\""@ + s@
            + "\""@,
{
    format!("{:?}", s)
}

/// An integer in decimal, with a minus sign when negative.
pub open spec fn signed_decimal(v: int) -> Seq<char> {
    if v < 0 {
        "-"@ + decimal((-v) as nat)
    } else {
        decimal(v as nat)
    }
}

/// `true` or `false`.
pub open spec fn bool_text(b: bool) -> Seq<char> {
    if b {
        "true"@
    } else {
        "false"@
    }
}

/// The text of a constant.
pub open spec fn constant_text(c: Constant) -> Seq<char> {
    match c {
        Constant::I32(v) => "I32("@ + signed_decimal(v as int) + ")"@,
        Constant::I64(v) => "I64("@ + signed_decimal(v as int) + ")"@,
        Constant::F32(bits) => "F32("@ + decimal(bits as nat) + ")"@,
        Constant::F64(bits) => "F64("@ + decimal(bits as nat) + ")"@,
        Constant::Boolean(b) => "Boolean("@ + bool_text(b) + ")"@,
    }
}

/// The text of an operand.
pub open spec fn operand_text(o: Operand) -> Seq<char> {
    match o {
        Operand::Local(n) => "Local("@ + decimal(n as nat) + ")"@,
        Operand::Constant(c) => "Constant("@ + constant_text(c) + ")"@,
        Operand::StackValue(n) => "StackValue("@ + decimal(n as nat) + ")"@,
    }
}

/// The text of an optional operand.
pub open spec fn opt_operand_text(o: Option<Operand>) -> Seq<char> {
    match o {
        Some(x) => "Some("@ + operand_text(x) + ")"@,
        None => "None"@,
    }
}

/// The text of an optional number.
pub open spec fn opt_u32_text(o: Option<u32>) -> Seq<char> {
    match o {
        Some(x) => "Some("@ + decimal(x as nat) + ")"@,
        None => "None"@,
    }
}

/// The text of a block identifier.
pub open spec fn block_text(b: BlockId) -> Seq<char> {
    "BlockId("@ + decimal(b.0 as nat) + ")"@
}

/// The name of a binary operator.
pub open spec fn binop_name(op: BinaryOp) -> Seq<char> {
    match op {
        BinaryOp::Add => "Add"@,
        BinaryOp::Sub => "Sub"@,
        BinaryOp::Mul => "Mul"@,
        BinaryOp::Div => "Div"@,
        BinaryOp::Mod => "Mod"@,
        BinaryOp::And => "And"@,
        BinaryOp::Or => "Or"@,
        BinaryOp::Xor => "Xor"@,
        BinaryOp::Shl => "Shl"@,
        BinaryOp::Shr => "Shr"@,
        BinaryOp::Eq => "Eq"@,
        BinaryOp::Ne => "Ne"@,
        BinaryOp::Lt => "Lt"@,
        BinaryOp::Le => "Le"@,
        BinaryOp::Gt => "Gt"@,
        BinaryOp::Ge => "Ge"@,
    }
}

/// The name of a unary operator.
pub open spec fn unop_name(op: UnaryOp) -> Seq<char> {
    match op {
        UnaryOp::Neg => "Neg"@,
        UnaryOp::Not => "Not"@,
    }
}

/// The name of a linear operation.
pub open spec fn linear_op_name(op: LinearOp) -> Seq<char> {
    match op {
        LinearOp::Consume => "Consume"@,
    }
}

/// The texts of the first `k` operands, separated by `, `.
pub open spec fn operands_text(s: Seq<Operand>, k: int) -> Seq<char>
    decreases k,
{
    if k <= 0 {
        Seq::empty()
    } else if k == 1 {
        operand_text(s[0])
    } else {
        operands_text(s, k - 1) + ", "@ + operand_text(s[k - 1])
    }
}

/// The texts of the first `k` switch targets, separated by `, `.
pub open spec fn targets_text(s: Seq<(Operand, BlockId)>, k: int) -> Seq<char>
    decreases k,
{
    if k <= 0 {
        Seq::empty()
    } else {
        let item = "("@ + operand_text(s[k - 1].0) + ", "@ + block_text(s[k - 1].1) + ")"@;
        if k == 1 {
            item
        } else {
            targets_text(s, k - 1) + ", "@ + item
        }
    }
}

/// The text of a type.
pub open spec fn type_text(t: Type) -> Seq<char>
    decreases t, 0int,
{
    match t {
        Type::I32 => "I32"@,
        Type::I64 => "I64"@,
        Type::F32 => "F32"@,
        Type::F64 => "F64"@,
        Type::ExternRef(name) => "ExternRef("@ + quoted(name@) + ")"@,
        Type::FuncRef => "FuncRef"@,
        Type::Pointer(inner) => "Pointer("@ + type_text(*inner) + ")"@,
        Type::Array { element_type, size } => "Array { element_type: "@ + type_text(*element_type)
            + ", size: "@ + opt_u32_text(size) + " }"@,
        Type::Struct { fields } => {
            proof {
                assert(decreases_to!(t => t->fields));
                assert(decreases_to!(fields => fields@));
            }
            "Struct { fields: ["@ + types_text(fields@, fields@.len() as int) + "] }"@
        },
        Type::Void => "Void"@,
    }
}

/// The texts of the first `k` types, separated by `, `.
pub open spec fn types_text(s: Seq<Type>, k: int) -> Seq<char>
    decreases s, k,
{
    if k <= 0 || k > s.len() {
        Seq::empty()
    } else {
        proof {
            assert(decreases_to!(s => s[k - 1]));
        }
        if k == 1 {
            type_text(s[0])
        } else {
            types_text(s, k - 1) + ", "@ + type_text(s[k - 1])
        }
    }
}

/// The text of an instruction.
pub open spec fn instruction_text(i: Instruction) -> Seq<char> {
    match i {
        Instruction::LocalGet { index } => "LocalGet { index: "@ + decimal(index as nat) + " }"@,
        Instruction::LocalSet { index, value } => "LocalSet { index: "@ + decimal(index as nat)
            + ", value: "@ + operand_text(value) + " }"@,
        Instruction::BinaryOp { op, left, right } => "BinaryOp { op: "@ + binop_name(op)
            + ", left: "@ + operand_text(left) + ", right: "@ + operand_text(right) + " }"@,
        Instruction::UnaryOp { op, value } => "UnaryOp { op: "@ + unop_name(op) + ", value: "@
            + operand_text(value) + " }"@,
        Instruction::MemoryLoad { address, ty, align, offset } => "MemoryLoad { address: "@
            + operand_text(address) + ", ty: "@ + type_text(ty) + ", align: "@ + opt_u32_text(align)
            + ", offset: "@ + decimal(offset as nat) + " }"@,
        Instruction::MemoryStore { address, value, ty, align, offset } => "MemoryStore { address: "@
            + operand_text(address) + ", value: "@ + operand_text(value) + ", ty: "@ + type_text(ty)
            + ", align: "@ + opt_u32_text(align) + ", offset: "@ + decimal(offset as nat) + " }"@,
        Instruction::Call { func_ref, args } => "Call { func_ref: "@ + decimal(func_ref as nat)
            + ", args: ["@ + operands_text(args@, args@.len() as int) + "] }"@,
        Instruction::Branch { condition, then_block, else_block } => "Branch { condition: "@
            + operand_text(condition) + ", then_block: "@ + block_text(then_block)
            + ", else_block: "@ + block_text(else_block) + " }"@,
        Instruction::Return { value } => "Return { value: "@ + opt_operand_text(value) + " }"@,
        Instruction::ExternRefCast { externref, target_type } => "ExternRefCast { externref: "@
            + operand_text(externref) + ", target_type: "@ + type_text(target_type) + " }"@,
        Instruction::LinearOp { op, value } => "LinearOp { op: "@ + linear_op_name(op)
            + ", value: "@ + operand_text(value) + " }"@,
        Instruction::AliasingCheck { ptr1, ptr2 } => "AliasingCheck { ptr1: "@ + operand_text(ptr1)
            + ", ptr2: "@ + operand_text(ptr2) + " }"@,
        Instruction::Nop => "Nop"@,
    }
}

/// The text of a terminator.
pub open spec fn terminator_text(t: Terminator) -> Seq<char> {
    match t {
        Terminator::Return { value } => "Return { value: "@ + opt_operand_text(value) + " }"@,
        Terminator::Jump { target } => "Jump { target: "@ + block_text(target) + " }"@,
        Terminator::Branch { condition, then_block, else_block } => "Branch { condition: "@
            + operand_text(condition) + ", then_block: "@ + block_text(then_block)
            + ", else_block: "@ + block_text(else_block) + " }"@,
        Terminator::Switch { value, targets, default_target } => "Switch { value: "@
            + operand_text(value) + ", targets: ["@ + targets_text(targets@, targets@.len() as int)
            + "], default_target: "@ + block_text(default_target) + " }"@,
        Terminator::Unreachable => "Unreachable"@,
    }
}

// ---------------------------------------------------------------------------
// Rendering
// ---------------------------------------------------------------------------

/// Appends an integer in decimal.
pub fn push_signed(s: &mut String, v: i64)
    ensures
        final(s)@ == old(s)@ + signed_decimal(v as int),
{
    if v < 0 {
        s.append("-");
        let m: u64 = ((-(v + 1)) as u64) + 1;
        push_decimal(s, m);
        assert(s@ =~= old(s)@ + signed_decimal(v as int));
    } else {
        push_decimal(s, v as u64);
    }
}

/// Appends the text of a constant.
pub fn push_constant(s: &mut String, c: &Constant)
    ensures
        final(s)@ == old(s)@ + constant_text(*c),
{
    match c {
        Constant::I32(v) => {
            s.append("I32(");
            push_signed(s, *v as i64);
            s.append(")");
        },
        Constant::I64(v) => {
            s.append("I64(");
            push_signed(s, *v);
            s.append(")");
        },
        Constant::F32(bits) => {
            s.append("F32(");
            push_decimal(s, *bits as u64);
            s.append(")");
        },
        Constant::F64(bits) => {
            s.append("F64(");
            push_decimal(s, *bits);
            s.append(")");
        },
        Constant::Boolean(b) => {
            s.append("Boolean(");
            if *b {
                s.append("true");
            } else {
                s.append("false");
            }
            s.append(")");
        },
    }
    assert(s@ =~= old(s)@ + constant_text(*c));
}

/// Appends the text of an operand.
pub fn push_operand(s: &mut String, o: &Operand)
    ensures
        final(s)@ == old(s)@ + operand_text(*o),
{
    match o {
        Operand::Local(n) => {
            s.append("Local(");
            push_decimal(s, *n as u64);
            s.append(")");
        },
        Operand::Constant(c) => {
            s.append("Constant(");
            push_constant(s, c);
            s.append(")");
        },
        Operand::StackValue(n) => {
            s.append("StackValue(");
            push_decimal(s, *n as u64);
            s.append(")");
        },
    }
    assert(s@ =~= old(s)@ + operand_text(*o));
}

fn push_opt_operand(s: &mut String, o: &Option<Operand>)
    ensures
        final(s)@ == old(s)@ + opt_operand_text(*o),
{
    match o {
        Some(x) => {
            s.append("Some(");
            push_operand(s, x);
            s.append(")");
        },
        None => {
            s.append("None");
        },
    }
    assert(s@ =~= old(s)@ + opt_operand_text(*o));
}

fn push_opt_u32(s: &mut String, o: &Option<u32>)
    ensures
        final(s)@ == old(s)@ + opt_u32_text(*o),
{
    match o {
        Some(x) => {
            s.append("Some(");
            push_decimal(s, *x as u64);
            s.append(")");
        },
        None => {
            s.append("None");
        },
    }
    assert(s@ =~= old(s)@ + opt_u32_text(*o));
}

fn push_block(s: &mut String, b: &BlockId)
    ensures
        final(s)@ == old(s)@ + block_text(*b),
{
    s.append("BlockId(");
    push_decimal(s, b.0 as u64);
    s.append(")");
    assert(s@ =~= old(s)@ + block_text(*b));
}

fn binop_str(op: BinaryOp) -> (r: &'static str)
    ensures
        r@ == binop_name(op),
{
    match op {
        BinaryOp::Add => "Add",
        BinaryOp::Sub => "Sub",
        BinaryOp::Mul => "Mul",
        BinaryOp::Div => "Div",
        BinaryOp::Mod => "Mod",
        BinaryOp::And => "And",
        BinaryOp::Or => "Or",
        BinaryOp::Xor => "Xor",
        BinaryOp::Shl => "Shl",
        BinaryOp::Shr => "Shr",
        BinaryOp::Eq => "Eq",
        BinaryOp::Ne => "Ne",
        BinaryOp::Lt => "Lt",
        BinaryOp::Le => "Le",
        BinaryOp::Gt => "Gt",
        BinaryOp::Ge => "Ge",
    }
}

fn push_operands(s: &mut String, v: &Vec<Operand>)
    ensures
        final(s)@ == old(s)@ + operands_text(v@, v@.len() as int),
{
    let n = v.len();
    let mut i: usize = 0;
    while i < n
        invariant
            0 <= i <= n,
            n == v@.len(),
            s@ == old(s)@ + operands_text(v@, i as int),
        decreases n - i,
    {
        let ghost before = s@;
        if i > 0 {
            s.append(", ");
        }
        push_operand(s, &v[i]);
        assert(s@ =~= old(s)@ + operands_text(v@, i + 1));
        i = i + 1;
    }
}

fn push_targets(s: &mut String, v: &Vec<(Operand, BlockId)>)
    ensures
        final(s)@ == old(s)@ + targets_text(v@, v@.len() as int),
{
    let n = v.len();
    let mut i: usize = 0;
    while i < n
        invariant
            0 <= i <= n,
            n == v@.len(),
            s@ == old(s)@ + targets_text(v@, i as int),
        decreases n - i,
    {
        if i > 0 {
            s.append(", ");
        }
        s.append("(");
        push_operand(s, &v[i].0);
        s.append(", ");
        push_block(s, &v[i].1);
        s.append(")");
        assert(s@ =~= old(s)@ + targets_text(v@, i + 1));
        i = i + 1;
    }
}

/// Appends the text of a type.
pub fn push_type(s: &mut String, t: &Type)
    ensures
        final(s)@ == old(s)@ + type_text(*t),
    decreases t,
{
    match t {
        Type::I32 => {
            s.append("I32");
        },
        Type::I64 => {
            s.append("I64");
        },
        Type::F32 => {
            s.append("F32");
        },
        Type::F64 => {
            s.append("F64");
        },
        Type::ExternRef(name) => {
            s.append("ExternRef(");
            let q = quote(name.as_str());
            s.append(q.as_str());
            s.append(")");
        },
        Type::FuncRef => {
            s.append("FuncRef");
        },
        Type::Pointer(inner) => {
            s.append("Pointer(");
            push_type(s, inner);
            s.append(")");
        },
        Type::Array { element_type, size } => {
            s.append("Array { element_type: ");
            push_type(s, element_type);
            s.append(", size: ");
            push_opt_u32(s, size);
            s.append(" }");
        },
        Type::Struct { fields } => {
            s.append("Struct { fields: [");
            let ghost head = s@;
            let n = fields.len();
            let mut i: usize = 0;
            while i < n
                invariant
                    0 <= i <= n,
                    n == fields@.len(),
                    *t == (Type::Struct { fields: *fields }),
                    s@ == head + types_text(fields@, i as int),
                decreases n - i,
            {
                proof {
                    assert(decreases_to!(*t => (*t)->fields));
                    assert(decreases_to!(*fields => fields@));
                    assert(decreases_to!(fields@ => fields@[i as int]));
                }
                if i > 0 {
                    s.append(", ");
                }
                push_type(s, &fields[i]);
                assert(s@ =~= head + types_text(fields@, i + 1));
                i = i + 1;
            }
            s.append("] }");
        },
        Type::Void => {
            s.append("Void");
        },
    }
    assert(s@ =~= old(s)@ + type_text(*t));
}

/// Appends the text of an instruction.
pub fn push_instruction(s: &mut String, inst: &Instruction)
    ensures
        final(s)@ == old(s)@ + instruction_text(*inst),
{
    match inst {
        Instruction::LocalGet { index } => {
            s.append("LocalGet { index: ");
            push_decimal(s, *index as u64);
            s.append(" }");
        },
        Instruction::LocalSet { index, value } => {
            s.append("LocalSet { index: ");
            push_decimal(s, *index as u64);
            s.append(", value: ");
            push_operand(s, value);
            s.append(" }");
        },
        Instruction::BinaryOp { op, left, right } => {
            s.append("BinaryOp { op: ");
            s.append(binop_str(*op));
            s.append(", left: ");
            push_operand(s, left);
            s.append(", right: ");
            push_operand(s, right);
            s.append(" }");
        },
        Instruction::UnaryOp { op, value } => {
            s.append("UnaryOp { op: ");
            match op {
                UnaryOp::Neg => s.append("Neg"),
                UnaryOp::Not => s.append("Not"),
            }
            s.append(", value: ");
            push_operand(s, value);
            s.append(" }");
        },
        Instruction::MemoryLoad { address, ty, align, offset } => {
            s.append("MemoryLoad { address: ");
            push_operand(s, address);
            s.append(", ty: ");
            push_type(s, ty);
            s.append(", align: ");
            push_opt_u32(s, align);
            s.append(", offset: ");
            push_decimal(s, *offset as u64);
            s.append(" }");
        },
        Instruction::MemoryStore { address, value, ty, align, offset } => {
            s.append("MemoryStore { address: ");
            push_operand(s, address);
            s.append(", value: ");
            push_operand(s, value);
            s.append(", ty: ");
            push_type(s, ty);
            s.append(", align: ");
            push_opt_u32(s, align);
            s.append(", offset: ");
            push_decimal(s, *offset as u64);
            s.append(" }");
        },
        Instruction::Call { func_ref, args } => {
            s.append("Call { func_ref: ");
            push_decimal(s, *func_ref as u64);
            s.append(", args: [");
            push_operands(s, args);
            s.append("] }");
        },
        Instruction::Branch { condition, then_block, else_block } => {
            s.append("Branch { condition: ");
            push_operand(s, condition);
            s.append(", then_block: ");
            push_block(s, then_block);
            s.append(", else_block: ");
            push_block(s, else_block);
            s.append(" }");
        },
        Instruction::Return { value } => {
            s.append("Return { value: ");
            push_opt_operand(s, value);
            s.append(" }");
        },
        Instruction::ExternRefCast { externref, target_type } => {
            s.append("ExternRefCast { externref: ");
            push_operand(s, externref);
            s.append(", target_type: ");
            push_type(s, target_type);
            s.append(" }");
        },
        Instruction::LinearOp { op, value } => {
            s.append("LinearOp { op: ");
            match op {
                LinearOp::Consume => s.append("Consume"),
            }
            s.append(", value: ");
            push_operand(s, value);
            s.append(" }");
        },
        Instruction::AliasingCheck { ptr1, ptr2 } => {
            s.append("AliasingCheck { ptr1: ");
            push_operand(s, ptr1);
            s.append(", ptr2: ");
            push_operand(s, ptr2);
            s.append(" }");
        },
        Instruction::Nop => {
            s.append("Nop");
        },
    }
    assert(s@ =~= old(s)@ + instruction_text(*inst));
}

/// Appends the text of a terminator.
pub fn push_terminator(s: &mut String, t: &Terminator)
    ensures
        final(s)@ == old(s)@ + terminator_text(*t),
{
    match t {
        Terminator::Return { value } => {
            s.append("Return { value: ");
            push_opt_operand(s, value);
            s.append(" }");
        },
        Terminator::Jump { target } => {
            s.append("Jump { target: ");
            push_block(s, target);
            s.append(" }");
        },
        Terminator::Branch { condition, then_block, else_block } => {
            s.append("Branch { condition: ");
            push_operand(s, condition);
            s.append(", then_block: ");
            push_block(s, then_block);
            s.append(", else_block: ");
            push_block(s, else_block);
            s.append(" }");
        },
        Terminator::Switch { value, targets, default_target } => {
            s.append("Switch { value: ");
            push_operand(s, value);
            s.append(", targets: [");
            push_targets(s, targets);
            s.append("], default_target: ");
            push_block(s, default_target);
            s.append(" }");
        },
        Terminator::Unreachable => {
            s.append("Unreachable");
        },
    }
    assert(s@ =~= old(s)@ + terminator_text(*t));
}

} // verus!
