//! Instruction-level optimizations: constant folding and the replacement of
//! multiplications by powers of two with shifts. Both keep the value that
//! the WebAssembly instruction computes.
use vstd::prelude::*;
use crate::wasmir::{BasicBlock, BinaryOp, Constant, Instruction, Operand};

verus! {

/// The amount a 32-bit shift by `r` shifts by: `r` read as unsigned,
/// modulo 32, as in WebAssembly's `i32.shl` and `i32.shr_s`.
pub open spec fn shift_amount32(r: i32) -> u32 {
    ((r as u32) % 32) as u32
}

/// The amount a 64-bit shift by `r` shifts by: `r` read as unsigned,
/// modulo 64, as in WebAssembly's `i64.shl` and `i64.shr_s`.
pub open spec fn shift_amount64(r: i64) -> u32 {
    ((r as u64) % 64) as u32
}

/// Value of a 32-bit binary operation on constants: arithmetic wraps as
/// WebAssembly's does, shifts take their amount modulo the width as
/// WebAssembly's do (the right shift is arithmetic), division and remainder
/// are `None` where Rust's checked operations are (the trapping cases,
/// which stay unfolded), comparisons give 1 or 0.
pub open spec fn eval_i32(op: BinaryOp, l: i32, r: i32) -> Option<i32> {
    match op {
        BinaryOp::Add => Some(l.wrapping_add(r)),
        BinaryOp::Sub => Some(l.wrapping_sub(r)),
        BinaryOp::Mul => Some(l.wrapping_mul(r)),
        BinaryOp::Div => l.checked_div(r),
        BinaryOp::Mod => l.checked_rem(r),
        BinaryOp::And => Some(l & r),
        BinaryOp::Or => Some(l | r),
        BinaryOp::Xor => Some(l ^ r),
        BinaryOp::Shl => Some(l << shift_amount32(r)),
        BinaryOp::Shr => Some(l >> shift_amount32(r)),
        BinaryOp::Eq => Some(if l == r { 1 } else { 0 }),
        BinaryOp::Ne => Some(if l != r { 1 } else { 0 }),
        BinaryOp::Lt => Some(if l < r { 1 } else { 0 }),
        BinaryOp::Le => Some(if l <= r { 1 } else { 0 }),
        BinaryOp::Gt => Some(if l > r { 1 } else { 0 }),
        BinaryOp::Ge => Some(if l >= r { 1 } else { 0 }),
    }
}

/// Value of a 64-bit binary operation on constants, as [`eval_i32`].
pub open spec fn eval_i64(op: BinaryOp, l: i64, r: i64) -> Option<i64> {
    match op {
        BinaryOp::Add => Some(l.wrapping_add(r)),
        BinaryOp::Sub => Some(l.wrapping_sub(r)),
        BinaryOp::Mul => Some(l.wrapping_mul(r)),
        BinaryOp::Div => l.checked_div(r),
        BinaryOp::Mod => l.checked_rem(r),
        BinaryOp::And => Some(l & r),
        BinaryOp::Or => Some(l | r),
        BinaryOp::Xor => Some(l ^ r),
        BinaryOp::Shl => Some(l << shift_amount64(r)),
        BinaryOp::Shr => Some(l >> shift_amount64(r)),
        BinaryOp::Eq => Some(if l == r { 1 } else { 0 }),
        BinaryOp::Ne => Some(if l != r { 1 } else { 0 }),
        BinaryOp::Lt => Some(if l < r { 1 } else { 0 }),
        BinaryOp::Le => Some(if l <= r { 1 } else { 0 }),
        BinaryOp::Gt => Some(if l > r { 1 } else { 0 }),
        BinaryOp::Ge => Some(if l >= r { 1 } else { 0 }),
    }
}

/// Value of a binary operation on two constants of the same integer width;
/// `None` for mixed or non-integer constants and for the undefined cases.
pub open spec fn eval_binary(op: BinaryOp, l: Constant, r: Constant) -> Option<Constant> {
    match (l, r) {
        (Constant::I32(a), Constant::I32(b)) => match eval_i32(op, a, b) {
            Some(v) => Some(Constant::I32(v)),
            None => None,
        },
        (Constant::I64(a), Constant::I64(b)) => match eval_i64(op, a, b) {
            Some(v) => Some(Constant::I64(v)),
            None => None,
        },
        _ => None,
    }
}

fn eval_i32_exec(op: BinaryOp, l: i32, r: i32) -> (res: Option<i32>)
    ensures
        res == eval_i32(op, l, r),
{
    match op {
        BinaryOp::Add => Some(l.wrapping_add(r)),
        BinaryOp::Sub => Some(l.wrapping_sub(r)),
        BinaryOp::Mul => Some(l.wrapping_mul(r)),
        BinaryOp::Div => l.checked_div(r),
        BinaryOp::Mod => l.checked_rem(r),
        BinaryOp::And => Some(l & r),
        BinaryOp::Or => Some(l | r),
        BinaryOp::Xor => Some(l ^ r),
        BinaryOp::Shl => Some(l.wrapping_shl(#[verifier::truncate] (r as u32))),
        BinaryOp::Shr => Some(l.wrapping_shr(#[verifier::truncate] (r as u32))),
        BinaryOp::Eq => Some(if l == r { 1 } else { 0 }),
        BinaryOp::Ne => Some(if l != r { 1 } else { 0 }),
        BinaryOp::Lt => Some(if l < r { 1 } else { 0 }),
        BinaryOp::Le => Some(if l <= r { 1 } else { 0 }),
        BinaryOp::Gt => Some(if l > r { 1 } else { 0 }),
        BinaryOp::Ge => Some(if l >= r { 1 } else { 0 }),
    }
}

fn eval_i64_exec(op: BinaryOp, l: i64, r: i64) -> (res: Option<i64>)
    ensures
        res == eval_i64(op, l, r),
{
    match op {
        BinaryOp::Add => Some(l.wrapping_add(r)),
        BinaryOp::Sub => Some(l.wrapping_sub(r)),
        BinaryOp::Mul => Some(l.wrapping_mul(r)),
        BinaryOp::Div => l.checked_div(r),
        BinaryOp::Mod => l.checked_rem(r),
        BinaryOp::And => Some(l & r),
        BinaryOp::Or => Some(l | r),
        BinaryOp::Xor => Some(l ^ r),
        BinaryOp::Shl => {
            proof {
                assert(((#[verifier::truncate] (r as u32)) % 64) as u32 == ((#[verifier::truncate] (r as u64)) % 64) as u32) by (bit_vector);
            }
            Some(l.wrapping_shl(#[verifier::truncate] (r as u32)))
        },
        BinaryOp::Shr => {
            proof {
                assert(((#[verifier::truncate] (r as u32)) % 64) as u32 == ((#[verifier::truncate] (r as u64)) % 64) as u32) by (bit_vector);
            }
            Some(l.wrapping_shr(#[verifier::truncate] (r as u32)))
        },
        BinaryOp::Eq => Some(if l == r { 1 } else { 0 }),
        BinaryOp::Ne => Some(if l != r { 1 } else { 0 }),
        BinaryOp::Lt => Some(if l < r { 1 } else { 0 }),
        BinaryOp::Le => Some(if l <= r { 1 } else { 0 }),
        BinaryOp::Gt => Some(if l > r { 1 } else { 0 }),
        BinaryOp::Ge => Some(if l >= r { 1 } else { 0 }),
    }
}

/// Evaluates a binary operation on two constants (constant folding).
pub fn evaluate_binary_op(op: BinaryOp, left: &Constant, right: &Constant) -> (res: Option<
    Constant,
>)
    ensures
        res == eval_binary(op, *left, *right),
{
    match (left, right) {
        (Constant::I32(l), Constant::I32(r)) => match eval_i32_exec(op, *l, *r) {
            Some(v) => Some(Constant::I32(v)),
            None => None,
        },
        (Constant::I64(l), Constant::I64(r)) => match eval_i64_exec(op, *l, *r) {
            Some(v) => Some(Constant::I64(v)),
            None => None,
        },
        _ => None,
    }
}

/// The folded form of an instruction: a binary operation on two constants
/// whose value is defined becomes a store of that value into local 0.
pub open spec fn fold_instruction(inst: Instruction) -> Instruction {
    match inst {
        Instruction::BinaryOp { op, left: Operand::Constant(l), right: Operand::Constant(r) } => {
            match eval_binary(op, l, r) {
                Some(c) => Instruction::LocalSet { index: 0, value: Operand::Constant(c) },
                None => inst,
            }
        },
        _ => inst,
    }
}

/// Folds an instruction in place.
pub fn fold_constants(instruction: &mut Instruction)
    ensures
        *final(instruction) == fold_instruction(*old(instruction)),
{
    let replacement: Option<Instruction> = match &*instruction {
        Instruction::BinaryOp { op, left: Operand::Constant(l), right: Operand::Constant(r) } => {
            match evaluate_binary_op(*op, l, r) {
                Some(c) => Some(Instruction::LocalSet { index: 0, value: Operand::Constant(c) }),
                None => None,
            }
        },
        _ => None,
    };
    if let Some(x) = replacement {
        *instruction = x;
    }
}

/// The exponent `k` with `c == 2^k`, if `c` is a positive power of two.
pub open spec fn power_of_two_exponent(c: int) -> Option<nat>
    decreases c,
{
    if c == 1 {
        Some(0)
    } else if c > 1 && c % 2 == 0 {
        match power_of_two_exponent(c / 2) {
            Some(k) => Some(k + 1),
            None => None,
        }
    } else {
        None
    }
}

/// The exponent of a positive power of two (`None` for other values).
pub fn exact_log2(c: i32) -> (r: Option<u32>)
    ensures
        r matches Some(k) ==> power_of_two_exponent(c as int) == Some(k as nat),
        r is None ==> power_of_two_exponent(c as int) is None,
{
    if c <= 0 {
        proof {
            assert(power_of_two_exponent(c as int) is None);
        }
        return None;
    }
    let mut v: i32 = c;
    let mut k: u32 = 0;
    proof {
        vstd::arithmetic::power2::lemma2_to64();
    }
    while v > 1 && v % 2 == 0
        invariant
            0 < v <= c,
            k <= 31,
            (power_of_two_exponent(c as int) matches Some(e) ==> power_of_two_exponent(v as int)
                == Some((e - k) as nat) && k <= e),
            power_of_two_exponent(c as int) is None ==> power_of_two_exponent(v as int) is None,
            v as int * vstd::arithmetic::power2::pow2(k as nat) == c as int,
        decreases v,
    {
        proof {
            vstd::arithmetic::power2::lemma_pow2_adds(k as nat, 1);
            vstd::arithmetic::power2::lemma2_to64();
            assert(vstd::arithmetic::power2::pow2((k + 1) as nat) == vstd::arithmetic::power2::pow2(k as nat) * 2);
            if k >= 30 {
                if k > 30 {
                    vstd::arithmetic::power2::lemma_pow2_strictly_increases(30, k as nat);
                }
                assert(v as int * vstd::arithmetic::power2::pow2(k as nat) >= 2 * vstd::arithmetic::power2::pow2(30)) by (nonlinear_arith)
                    requires v >= 2, vstd::arithmetic::power2::pow2(k as nat) >= vstd::arithmetic::power2::pow2(30);
                assert(false);
            }
            assert((v / 2) as int * vstd::arithmetic::power2::pow2((k + 1) as nat) == c as int) by (nonlinear_arith)
                requires
                    v % 2 == 0,
                    v as int * vstd::arithmetic::power2::pow2(k as nat) == c as int,
                    vstd::arithmetic::power2::pow2((k + 1) as nat) == vstd::arithmetic::power2::pow2(k as nat) * 2,
            ;
        }
        v = v / 2;
        k = k + 1;
    }
    if v == 1 {
        Some(k)
    } else {
        None
    }
}

/// The form of an instruction after instruction selection: a 32-bit
/// multiplication by a positive power of two `2^k` becomes a left shift by
/// `k`, which computes the same wrapped product. Every other instruction is
/// kept; in particular a signed division is not turned into a right shift,
/// which would round toward minus infinity instead of toward zero.
pub open spec fn select_instruction(inst: Instruction) -> Instruction {
    match inst {
        Instruction::BinaryOp { op, left, right } => {
            let (op1, right1) = match (op, right) {
                (BinaryOp::Mul, Operand::Constant(Constant::I32(c))) => match power_of_two_exponent(c as int) {
                    Some(k) => (BinaryOp::Shl, Operand::Constant(Constant::I32(k as i32))),
                    None => (op, right),
                },
                _ => (op, right),
            };
            Instruction::BinaryOp { op: op1, left, right: right1 }
        },
        _ => inst,
    }
}

/// Rewrites 32-bit multiplications by positive powers of two as left
/// shifts; divisions are kept.
pub fn optimize_instruction(instruction: &mut Instruction)
    ensures
        *final(instruction) == select_instruction(*old(instruction)),
{
    let replacement: Option<Instruction> = match &*instruction {
        Instruction::BinaryOp { op, left, right } => {
            let mut op1 = *op;
            let mut right1 = *right;
            if op1 == BinaryOp::Mul {
                if let Operand::Constant(Constant::I32(c)) = right1 {
                    if let Some(k) = exact_log2(c) {
                        proof { lemma_exponent_small(c as int); }
                        op1 = BinaryOp::Shl;
                        right1 = Operand::Constant(Constant::I32(k as i32));
                    }
                }
            }
            Some(Instruction::BinaryOp { op: op1, left: *left, right: right1 })
        },
        _ => None,
    };
    if let Some(x) = replacement {
        *instruction = x;
    }
}

proof fn lemma_mul_pow2_is_shl(x: i32, k: u32)
    requires
        k < 31,
    ensures
        x.wrapping_mul(1i32 << k) == x << k,
{
    assert(x.wrapping_mul(1i32 << k) == x << k) by (bit_vector)
        requires
            k < 31,
    ;
}

proof fn lemma_pow2_is_shl(k: u32)
    requires
        k < 31,
    ensures
        (1i32 << k) as int == vstd::arithmetic::power2::pow2(k as nat),
{
    vstd::arithmetic::power2::lemma_pow2_strictly_increases(k as nat, 31);
    vstd::arithmetic::power2::lemma2_to64();
    vstd::bits::lemma_u32_shl_is_mul(1u32, k);
    assert((1i32 << k) as int == (1u32 << k) as int) by (bit_vector)
        requires
            k < 31,
    ;
}

/// Instruction selection keeps the value an instruction computes: a binary
/// operation with an `i32` constant `c` on the right, whatever its left
/// operand, is selected into a binary operation on the same left operand
/// with an `i32` constant on the right, which gives the same result as the
/// original for every `i32` value `x` of the left operand (a multiplication
/// by `2^k` and a left shift by `k` wrap alike; a division is not touched).
pub proof fn lemma_selection_keeps_value(op: BinaryOp, left: Operand, c: i32, x: i32)
    ensures
        select_instruction(
            Instruction::BinaryOp { op, left, right: Operand::Constant(Constant::I32(c)) },
        ) matches Instruction::BinaryOp {
            op: op2,
            left: left2,
            right: Operand::Constant(Constant::I32(c2)),
        } && left2 == left && eval_i32(op2, x, c2) == eval_i32(op, x, c),
{
    if op == BinaryOp::Mul {
        if let Some(k) = power_of_two_exponent(c as int) {
            lemma_exponent_small(c as int);
            lemma_exponent_value(c as int);
            lemma_pow2_is_shl(k as u32);
            lemma_mul_pow2_is_shl(x, k as u32);
            assert(c == (1i32 << (k as u32)));
            assert(shift_amount32(k as i32) == k as u32);
        }
    }
}

/// A power of two that fits in an `i32` has an exponent below 31.
pub proof fn lemma_exponent_small(c: int)
    requires
        c <= i32::MAX,
    ensures
        power_of_two_exponent(c) matches Some(k) ==> k < 31,
    decreases c,
{
    if c > 1 && c % 2 == 0 {
        lemma_exponent_small(c / 2);
        if let Some(k) = power_of_two_exponent(c / 2) {
            if k >= 30 {
                lemma_exponent_value(c / 2);
                vstd::arithmetic::power2::lemma_pow2_strictly_increases(29, k);
                vstd::arithmetic::power2::lemma2_to64();
            }
        }
    }
}

/// `c == 2^k` when `k` is the exponent of `c`.
pub proof fn lemma_exponent_value(c: int)
    ensures
        power_of_two_exponent(c) matches Some(k) ==> c == vstd::arithmetic::power2::pow2(k),
    decreases c,
{
    if c > 1 && c % 2 == 0 {
        lemma_exponent_value(c / 2);
        if let Some(k) = power_of_two_exponent(c / 2) {
            vstd::arithmetic::power2::lemma_pow2_adds(k, 1);
            vstd::arithmetic::power2::lemma2_to64();
        }
    } else if c == 1 {
        vstd::arithmetic::power2::lemma2_to64();
    }
}

/// Whether `new` is `old` with `f` applied to every instruction, the
/// identifiers and terminators of the blocks unchanged.
pub open spec fn blocks_mapped(
    old_blocks: Seq<BasicBlock>,
    new_blocks: Seq<BasicBlock>,
    f: spec_fn(Instruction) -> Instruction,
) -> bool {
    &&& new_blocks.len() == old_blocks.len()
    &&& forall|i: int|
        #![trigger new_blocks[i]]
        0 <= i < old_blocks.len() ==> {
            &&& new_blocks[i].id == old_blocks[i].id
            &&& new_blocks[i].terminator == old_blocks[i].terminator
            &&& new_blocks[i].instructions@ == old_blocks[i].instructions@.map_values(f)
        }
}

/// Applies constant folding to every instruction of every block.
pub fn fold_blocks(blocks: &mut Vec<BasicBlock>)
    ensures
        blocks_mapped(old(blocks)@, final(blocks)@, |x: Instruction| fold_instruction(x)),
{
    let n = blocks.len();
    let mut i: usize = 0;
    while i < n
        invariant
            0 <= i <= n,
            n == old(blocks)@.len(),
            blocks@.len() == n,
            forall|k: int|
                #![trigger blocks@[k]]
                0 <= k < i ==> {
                    &&& blocks@[k].id == old(blocks)@[k].id
                    &&& blocks@[k].terminator == old(blocks)@[k].terminator
                    &&& blocks@[k].instructions@ == old(blocks)@[k].instructions@.map_values(
                        |x: Instruction| fold_instruction(x),
                    )
                },
            forall|k: int| i <= k < n ==> blocks@[k] == old(blocks)@[k],
        decreases n - i,
    {
        let m = blocks[i].instructions.len();
        let ghost orig = blocks@[i as int].instructions@;
        let mut j: usize = 0;
        while j < m
            invariant
                0 <= j <= m,
                0 <= i < n,
                blocks@.len() == n,
                m == orig.len(),
                blocks@[i as int].instructions@.len() == m,
                blocks@[i as int].id == old(blocks)@[i as int].id,
                blocks@[i as int].terminator == old(blocks)@[i as int].terminator,
                orig == old(blocks)@[i as int].instructions@,
                forall|t: int| 0 <= t < j ==> blocks@[i as int].instructions@[t] == fold_instruction(orig[t]),
                forall|t: int| j <= t < m ==> blocks@[i as int].instructions@[t] == orig[t],
                forall|k: int|
                    #![trigger blocks@[k]]
                    0 <= k < i ==> {
                        &&& blocks@[k].id == old(blocks)@[k].id
                        &&& blocks@[k].terminator == old(blocks)@[k].terminator
                        &&& blocks@[k].instructions@ == old(blocks)@[k].instructions@.map_values(
                            |x: Instruction| fold_instruction(x),
                        )
                    },
                forall|k: int| i < k < n ==> blocks@[k] == old(blocks)@[k],
            decreases m - j,
        {
            fold_constants(&mut blocks[i].instructions[j]);
            j = j + 1;
        }
        assert(blocks@[i as int].instructions@ =~= orig.map_values(|x: Instruction| fold_instruction(x)));
        i = i + 1;
    }
}

/// Applies instruction selection to every instruction of every block.
pub fn select_blocks(blocks: &mut Vec<BasicBlock>)
    ensures
        blocks_mapped(old(blocks)@, final(blocks)@, |x: Instruction| select_instruction(x)),
{
    let n = blocks.len();
    let mut i: usize = 0;
    while i < n
        invariant
            0 <= i <= n,
            n == old(blocks)@.len(),
            blocks@.len() == n,
            forall|k: int|
                #![trigger blocks@[k]]
                0 <= k < i ==> {
                    &&& blocks@[k].id == old(blocks)@[k].id
                    &&& blocks@[k].terminator == old(blocks)@[k].terminator
                    &&& blocks@[k].instructions@ == old(blocks)@[k].instructions@.map_values(
                        |x: Instruction| select_instruction(x),
                    )
                },
            forall|k: int| i <= k < n ==> blocks@[k] == old(blocks)@[k],
        decreases n - i,
    {
        let m = blocks[i].instructions.len();
        let ghost orig = blocks@[i as int].instructions@;
        let mut j: usize = 0;
        while j < m
            invariant
                0 <= j <= m,
                0 <= i < n,
                blocks@.len() == n,
                m == orig.len(),
                blocks@[i as int].instructions@.len() == m,
                blocks@[i as int].id == old(blocks)@[i as int].id,
                blocks@[i as int].terminator == old(blocks)@[i as int].terminator,
                orig == old(blocks)@[i as int].instructions@,
                forall|t: int| 0 <= t < j ==> blocks@[i as int].instructions@[t] == select_instruction(orig[t]),
                forall|t: int| j <= t < m ==> blocks@[i as int].instructions@[t] == orig[t],
                forall|k: int|
                    #![trigger blocks@[k]]
                    0 <= k < i ==> {
                        &&& blocks@[k].id == old(blocks)@[k].id
                        &&& blocks@[k].terminator == old(blocks)@[k].terminator
                        &&& blocks@[k].instructions@ == old(blocks)@[k].instructions@.map_values(
                            |x: Instruction| select_instruction(x),
                        )
                    },
                forall|k: int| i < k < n ==> blocks@[k] == old(blocks)@[k],
            decreases m - j,
        {
            optimize_instruction(&mut blocks[i].instructions[j]);
            j = j + 1;
        }
        assert(blocks@[i as int].instructions@ =~= orig.map_values(|x: Instruction| select_instruction(x)));
        i = i + 1;
    }
}

// ---------------------------------------------------------------------------
// What folding computes
// ---------------------------------------------------------------------------

/// `v` and `x` are equal modulo `m`.
pub open spec fn congruent(v: int, x: int, m: int) -> bool {
    (v - x) % m == 0
}

proof fn lemma_multiple_congruent(v: int, x: int, k: int, m: int)
    requires
        m > 0,
        v == x + k * m,
    ensures
        congruent(v, x, m),
{
    vstd::arithmetic::div_mod::lemma_mod_multiples_basic(k, m);
    assert(v - x == k * m);
}

proof fn lemma_congruent_unique(a: int, b: int, m: int)
    requires
        m > 0,
        congruent(a, b, m),
        -m < a - b < m,
    ensures
        a == b,
{
    vstd::arithmetic::div_mod::lemma_fundamental_div_mod(a - b, m);
    let q = (a - b) / m;
    assert(a - b == m * q);
    assert(q == 0) by (nonlinear_arith)
        requires
            a - b == m * q,
            -m < a - b < m,
            m > 0,
    ;
}

proof fn lemma_crop_congruent32(p: int)
    ensures
        congruent(vstd::wrapping::i32_specs::signed_crop(p) as int, p, 0x1_0000_0000),
{
    let m: int = 0x1_0000_0000;
    vstd::arithmetic::div_mod::lemma_fundamental_div_mod(p, m);
    vstd::arithmetic::div_mod::lemma_mod_bound(p, m);
    let q = p / m;
    vstd::arithmetic::mul::lemma_mul_is_commutative(m, q);
    if p % m > i32::MAX {
        lemma_multiple_congruent(p % m - m, p, -q - 1, m);
    } else {
        lemma_multiple_congruent(p % m, p, -q, m);
    }
}

proof fn lemma_crop_congruent64(p: int)
    ensures
        congruent(vstd::wrapping::i64_specs::signed_crop(p) as int, p, 0x1_0000_0000_0000_0000),
{
    let m: int = 0x1_0000_0000_0000_0000;
    vstd::arithmetic::div_mod::lemma_fundamental_div_mod(p, m);
    vstd::arithmetic::div_mod::lemma_mod_bound(p, m);
    let q = p / m;
    vstd::arithmetic::mul::lemma_mul_is_commutative(m, q);
    if p % m > i64::MAX {
        lemma_multiple_congruent(p % m - m, p, -q - 1, m);
    } else {
        lemma_multiple_congruent(p % m, p, -q, m);
    }
}

/// Folding a 32-bit addition, subtraction or multiplication of constants
/// gives the exact result wrapped into `i32`: the value congruent to it
/// modulo `2^32`. Folding a comparison gives 1 when it holds and 0 when it
/// does not; folding `and`, `or` and `xor` gives the bitwise result.
pub proof fn lemma_fold_i32_meaning(op: BinaryOp, l: i32, r: i32)
    ensures
        ({
            let res = eval_binary(op, Constant::I32(l), Constant::I32(r));
            let m: int = 0x1_0000_0000;
            &&& op == BinaryOp::Add ==> (res matches Some(Constant::I32(v)) && congruent(v as int, l + r, m))
            &&& op == BinaryOp::Sub ==> (res matches Some(Constant::I32(v)) && congruent(v as int, l - r, m))
            &&& op == BinaryOp::Mul ==> (res matches Some(Constant::I32(v)) && congruent(v as int, l * r, m))
            &&& op == BinaryOp::And ==> res == Some(Constant::I32(l & r))
            &&& op == BinaryOp::Or ==> res == Some(Constant::I32(l | r))
            &&& op == BinaryOp::Xor ==> res == Some(Constant::I32(l ^ r))
            &&& op == BinaryOp::Eq ==> res == Some(Constant::I32(if l == r { 1 } else { 0 }))
            &&& op == BinaryOp::Ne ==> res == Some(Constant::I32(if l != r { 1 } else { 0 }))
            &&& op == BinaryOp::Lt ==> res == Some(Constant::I32(if l < r { 1 } else { 0 }))
            &&& op == BinaryOp::Le ==> res == Some(Constant::I32(if l <= r { 1 } else { 0 }))
            &&& op == BinaryOp::Gt ==> res == Some(Constant::I32(if l > r { 1 } else { 0 }))
            &&& op == BinaryOp::Ge ==> res == Some(Constant::I32(if l >= r { 1 } else { 0 }))
        }),
{
    let m: int = 0x1_0000_0000;
    if op == BinaryOp::Add {
        let v = l.wrapping_add(r);
        if l + r > i32::MAX {
            lemma_multiple_congruent(v as int, l + r, -1, m);
        } else if l + r < i32::MIN {
            lemma_multiple_congruent(v as int, l + r, 1, m);
        } else {
            lemma_multiple_congruent(v as int, l + r, 0, m);
        }
    } else if op == BinaryOp::Sub {
        let v = l.wrapping_sub(r);
        if l - r > i32::MAX {
            lemma_multiple_congruent(v as int, l - r, -1, m);
        } else if l - r < i32::MIN {
            lemma_multiple_congruent(v as int, l - r, 1, m);
        } else {
            lemma_multiple_congruent(v as int, l - r, 0, m);
        }
    } else if op == BinaryOp::Mul {
        lemma_crop_congruent32(l * r);
    }
}

/// Folding a 64-bit addition, subtraction or multiplication of constants
/// gives the exact result wrapped into `i64`: the value congruent to it
/// modulo `2^64`.
pub proof fn lemma_fold_i64_meaning(op: BinaryOp, l: i64, r: i64)
    ensures
        ({
            let res = eval_binary(op, Constant::I64(l), Constant::I64(r));
            let m: int = 0x1_0000_0000_0000_0000;
            &&& op == BinaryOp::Add ==> (res matches Some(Constant::I64(v)) && congruent(v as int, l + r, m))
            &&& op == BinaryOp::Sub ==> (res matches Some(Constant::I64(v)) && congruent(v as int, l - r, m))
            &&& op == BinaryOp::Mul ==> (res matches Some(Constant::I64(v)) && congruent(v as int, l * r, m))
            &&& op == BinaryOp::Lt ==> res == Some(Constant::I64(if l < r { 1 } else { 0 }))
            &&& op == BinaryOp::Eq ==> res == Some(Constant::I64(if l == r { 1 } else { 0 }))
        }),
{
    let m: int = 0x1_0000_0000_0000_0000;
    if op == BinaryOp::Add {
        let v = l.wrapping_add(r);
        if l + r > i64::MAX {
            lemma_multiple_congruent(v as int, l + r, -1, m);
        } else if l + r < i64::MIN {
            lemma_multiple_congruent(v as int, l + r, 1, m);
        } else {
            lemma_multiple_congruent(v as int, l + r, 0, m);
        }
    } else if op == BinaryOp::Sub {
        let v = l.wrapping_sub(r);
        if l - r > i64::MAX {
            lemma_multiple_congruent(v as int, l - r, -1, m);
        } else if l - r < i64::MIN {
            lemma_multiple_congruent(v as int, l - r, 1, m);
        } else {
            lemma_multiple_congruent(v as int, l - r, 0, m);
        }
    } else if op == BinaryOp::Mul {
        lemma_crop_congruent64(l * r);
    }
}

/// Folded subtraction undoes folded addition and the other way round:
/// adding `r` back to `l - r` gives `l`, and subtracting `r` from `l + r`
/// gives `l`, wrapping included.
pub proof fn lemma_fold_sub_add_inverse(l: i32, r: i32)
    ensures
        (eval_binary(BinaryOp::Sub, Constant::I32(l), Constant::I32(r)) matches Some(d)
            && eval_binary(BinaryOp::Add, d, Constant::I32(r)) == Some(Constant::I32(l))),
        (eval_binary(BinaryOp::Add, Constant::I32(l), Constant::I32(r)) matches Some(s)
            && eval_binary(BinaryOp::Sub, s, Constant::I32(r)) == Some(Constant::I32(l))),
{
    let m: int = 0x1_0000_0000;
    lemma_fold_i32_meaning(BinaryOp::Sub, l, r);
    lemma_fold_i32_meaning(BinaryOp::Add, l, r);
    let d = l.wrapping_sub(r);
    let s = l.wrapping_add(r);
    lemma_fold_i32_meaning(BinaryOp::Add, d, r);
    lemma_fold_i32_meaning(BinaryOp::Sub, s, r);
    let back = d.wrapping_add(r);
    let back2 = s.wrapping_sub(r);
    // back ≡ d + r ≡ (l - r) + r = l
    vstd::arithmetic::div_mod::lemma_fundamental_div_mod(d - (l - r), m);
    vstd::arithmetic::div_mod::lemma_fundamental_div_mod(back - (d + r), m);
    vstd::arithmetic::div_mod::lemma_fundamental_div_mod(s - (l + r), m);
    vstd::arithmetic::div_mod::lemma_fundamental_div_mod(back2 - (s - r), m);
    let k1 = (d - (l - r)) / m;
    let k2 = (back - (d + r)) / m;
    let k3 = (s - (l + r)) / m;
    let k4 = (back2 - (s - r)) / m;
    vstd::arithmetic::mul::lemma_mul_is_distributive_add(m, k1, k2);
    vstd::arithmetic::mul::lemma_mul_is_distributive_add(m, k3, k4);
    vstd::arithmetic::mul::lemma_mul_is_commutative(m, k1 + k2);
    vstd::arithmetic::mul::lemma_mul_is_commutative(m, k3 + k4);
    lemma_multiple_congruent(back as int, l as int, k1 + k2, m);
    lemma_multiple_congruent(back2 as int, l as int, k3 + k4, m);
    lemma_congruent_unique(back as int, l as int, m);
    lemma_congruent_unique(back2 as int, l as int, m);
}

/// The quotient of `x` by `d` rounded toward zero, as Rust's checked
/// division computes it.
spec fn quotient_toward_zero(x: int, d: int) -> int {
    if x == 0 {
        0
    } else if x > 0 && d > 0 {
        x / d
    } else if x < 0 && d < 0 {
        (x * -1) / (d * -1)
    } else if x < 0 {
        ((x * -1) / d) * -1
    } else {
        (x / (d * -1)) * -1
    }
}

/// The remainder matching that quotient, as Rust's checked remainder
/// computes it.
spec fn remainder_toward_zero(x: int, d: int) -> int {
    if x == 0 {
        0
    } else if x > 0 && d > 0 {
        x % d
    } else if x < 0 && d < 0 {
        ((x * -1) % (d * -1)) * -1
    } else if x < 0 {
        ((x * -1) % d) * -1
    } else {
        x % (d * -1)
    }
}

proof fn lemma_toward_zero(x: int, d: int)
    requires
        d != 0,
    ensures
        x == quotient_toward_zero(x, d) * d + remainder_toward_zero(x, d),
        x > 0 ==> 0 <= remainder_toward_zero(x, d),
        x < 0 ==> remainder_toward_zero(x, d) <= 0,
        x == 0 ==> remainder_toward_zero(x, d) == 0,
        d > 0 ==> -d < remainder_toward_zero(x, d) < d,
        d < 0 ==> d < remainder_toward_zero(x, d) < -d,
{
    if x > 0 && d > 0 {
        vstd::arithmetic::div_mod::lemma_fundamental_div_mod(x, d);
        vstd::arithmetic::div_mod::lemma_mod_bound(x, d);
        vstd::arithmetic::mul::lemma_mul_is_commutative(d, x / d);
    } else if x < 0 && d < 0 {
        let a = x * -1;
        let e = d * -1;
        vstd::arithmetic::div_mod::lemma_fundamental_div_mod(a, e);
        vstd::arithmetic::div_mod::lemma_mod_bound(a, e);
        let q = a / e;
        assert(q * d == -(e * q)) by (nonlinear_arith)
            requires
                e == d * -1,
        ;
    } else if x < 0 {
        let a = x * -1;
        vstd::arithmetic::div_mod::lemma_fundamental_div_mod(a, d);
        vstd::arithmetic::div_mod::lemma_mod_bound(a, d);
        let q = a / d;
        assert((q * -1) * d == -(d * q)) by (nonlinear_arith);
    } else if x > 0 {
        let e = d * -1;
        vstd::arithmetic::div_mod::lemma_fundamental_div_mod(x, e);
        vstd::arithmetic::div_mod::lemma_mod_bound(x, e);
        let q = x / e;
        assert((q * -1) * d == e * q) by (nonlinear_arith)
            requires
                e == d * -1,
        ;
    }
}

/// Folding a 32-bit division or remainder: neither folds when the divisor
/// is zero or the division overflows (`i32::MIN / -1`); otherwise the
/// quotient `q` and remainder `m` satisfy `l == q * r + m`, the remainder
/// has the sign of `l` (or is zero) and is smaller than `r` in size, which
/// is division rounding toward zero, as `i32.div_s` and `i32.rem_s` do.
pub proof fn lemma_fold_i32_division(l: i32, r: i32)
    ensures
        (r == 0 || (l == i32::MIN && r == -1)) ==> eval_binary(
            BinaryOp::Div,
            Constant::I32(l),
            Constant::I32(r),
        ) is None && eval_binary(BinaryOp::Mod, Constant::I32(l), Constant::I32(r)) is None,
        !(r == 0 || (l == i32::MIN && r == -1)) ==> (eval_binary(
            BinaryOp::Div,
            Constant::I32(l),
            Constant::I32(r),
        ) matches Some(Constant::I32(q)) && eval_binary(
            BinaryOp::Mod,
            Constant::I32(l),
            Constant::I32(r),
        ) matches Some(Constant::I32(m)) && l == q * r + m && (l > 0 ==> m >= 0) && (l < 0 ==> m
            <= 0) && (l == 0 ==> m == 0) && (r > 0 ==> -r < m < r) && (r < 0 ==> r < m < -r)),
{
    if r != 0 {
        lemma_toward_zero(l as int, r as int);
        if l == i32::MIN && r == -1 {
            assert((l as int) * -1 == 0x8000_0000);
            assert((r as int) * -1 == 1);
            assert(0x8000_0000int / 1int == 0x8000_0000);
            assert(quotient_toward_zero(l as int, r as int) == 0x8000_0000);
        } else {
            let q = quotient_toward_zero(l as int, r as int);
            let m = remainder_toward_zero(l as int, r as int);
            assert(i32::MIN <= q <= i32::MAX) by (nonlinear_arith)
                requires
                    l == q * r + m,
                    r != 0,
                    (r > 0 ==> -r < m < r),
                    (r < 0 ==> r < m < -r),
                    (l > 0 ==> m >= 0),
                    (l < 0 ==> m <= 0),
                    i32::MIN <= l <= i32::MAX,
                    i32::MIN <= r <= i32::MAX,
                    !(l == i32::MIN && r == -1),
            ;
        }
    }
}

} // verus!
