//! Unsigned LEB128 encoding of 32-bit values, as used by the WebAssembly
//! binary format for indices and section lengths.
use vstd::prelude::*;

verus! {

/// The LEB128 bytes of `v`: seven bits per byte, least significant group
/// first, the high bit set on every byte but the last.
pub open spec fn leb128(v: u32) -> Seq<u8>
    decreases v,
{
    let low = (v % 128) as u8;
    let rest = v / 128;
    if rest == 0 {
        seq![low]
    } else {
        seq![(low + 128) as u8] + leb128(rest as u32)
    }
}

/// Decodes the value of an LEB128 byte group: the value of the bytes up to
/// and including the first byte below 128 (`None` when there is none).
pub open spec fn leb128_decode(bytes: Seq<u8>) -> Option<(nat, nat)>
    decreases bytes.len(),
{
    if bytes.len() == 0 {
        None
    } else if bytes[0] < 128 {
        Some((bytes[0] as nat, 1))
    } else {
        match leb128_decode(bytes.drop_first()) {
            Some((v, n)) => Some((((bytes[0] - 128) + 128 * v) as nat, n + 1)),
            None => None,
        }
    }
}

/// Decoding the encoding of a value gives back the value and consumes
/// exactly the encoded bytes, whatever follows them.
pub proof fn lemma_leb128_roundtrip(v: u32, rest: Seq<u8>)
    ensures
        leb128_decode(leb128(v) + rest) == Some((v as nat, leb128(v).len())),
    decreases v,
{
    let low = (v % 128) as u8;
    let hi = v / 128;
    let bytes = leb128(v) + rest;
    if hi == 0 {
        assert(bytes[0] == low);
    } else {
        lemma_leb128_roundtrip(hi as u32, rest);
        assert(bytes.drop_first() =~= leb128(hi as u32) + rest);
        assert(bytes[0] == (low + 128) as u8);
    }
}

/// An encoding has between one and five bytes, every byte but the last has
/// its high bit set, and the last has it clear.
pub proof fn lemma_leb128_shape(v: u32)
    ensures
        1 <= leb128(v).len() <= 5,
        forall|i: int| 0 <= i < leb128(v).len() - 1 ==> leb128(v)[i] >= 128,
        leb128(v).last() < 128,
        v < 128 <==> leb128(v).len() == 1,
        v < 0x4000 ==> leb128(v).len() <= 2,
        v < 0x20_0000 ==> leb128(v).len() <= 3,
        v < 0x1000_0000 ==> leb128(v).len() <= 4,
    decreases v,
{
    if v / 128 != 0 {
        lemma_leb128_shape((v / 128) as u32);
        assert(v / 128 < 0x2000000);
        if v / 128 >= 128 {
            assert((v / 128) / 128 < 0x40000);
        }
    }
}

/// The number of bits of `v` without leading zeros (0 for 0).
pub open spec fn bit_length(v: nat) -> nat
    decreases v,
{
    if v == 0 {
        0
    } else {
        1 + bit_length(v / 2)
    }
}

/// The value of a byte sequence read as LEB128 groups: the low seven bits
/// of byte `i` (`b[i] & 0x7f`, that is `b[i] % 128`) weighted by `128^i`.
pub open spec fn groups_value(b: Seq<u8>) -> nat
    decreases b.len(),
{
    if b.len() == 0 {
        0
    } else {
        (b[0] % 128) as nat + 128 * groups_value(b.drop_first())
    }
}

proof fn lemma_bit_length_div128(v: nat)
    requires
        v >= 128,
    ensures
        bit_length(v) == 7 + bit_length(v / 128),
{
    let v1 = v / 2;
    let v2 = v1 / 2;
    let v3 = v2 / 2;
    let v4 = v3 / 2;
    let v5 = v4 / 2;
    let v6 = v5 / 2;
    let v7 = v6 / 2;
    assert(v7 == v / 128);
    assert(bit_length(v) == 1 + bit_length(v1));
    assert(bit_length(v1) == 1 + bit_length(v2));
    assert(bit_length(v2) == 1 + bit_length(v3));
    assert(bit_length(v3) == 1 + bit_length(v4));
    assert(bit_length(v4) == 1 + bit_length(v5));
    assert(bit_length(v5) == 1 + bit_length(v6));
    assert(bit_length(v6) == 1 + bit_length(v7));
}

proof fn lemma_bit_length_small(v: nat)
    requires
        v < 128,
    ensures
        bit_length(v) <= 7,
{
    let v1 = v / 2;
    let v2 = v1 / 2;
    let v3 = v2 / 2;
    let v4 = v3 / 2;
    let v5 = v4 / 2;
    let v6 = v5 / 2;
    let v7 = v6 / 2;
    assert(v7 == 0);
    assert(bit_length(v7) == 0);
    assert(bit_length(v6) <= 1);
    assert(bit_length(v5) <= 2);
    assert(bit_length(v4) <= 3);
    assert(bit_length(v3) <= 4);
    assert(bit_length(v2) <= 5);
    assert(bit_length(v1) <= 6);
}

/// The encoding of `v` is canonical: it has `max(1, ceil(bit_length(v) / 7))`
/// bytes, and the low seven bits of its bytes, weighted by `128^i`, add up
/// to `v`. For example 0 is `[0x00]`, 128 is `[0x80, 0x01]` and 624485 is
/// `[0xE5, 0x8E, 0x26]`.
pub proof fn lemma_leb128_canonical(v: u32)
    ensures
        leb128(v).len() == if v == 0 {
            1
        } else {
            (bit_length(v as nat) + 6) / 7
        },
        groups_value(leb128(v)) == v,
    decreases v,
{
    let low = (v % 128) as u8;
    let hi = v / 128;
    if hi == 0 {
        lemma_bit_length_small(v as nat);
        assert(groups_value(leb128(v).drop_first()) == 0);
        if v > 0 {
            assert(bit_length(v as nat) >= 1);
        }
    } else {
        lemma_leb128_canonical(hi as u32);
        lemma_bit_length_div128(v as nat);
        assert(leb128(v).drop_first() =~= leb128(hi as u32));
        assert(bit_length(hi as nat) >= 1);
    }
}

/// Appends the LEB128 encoding of `value` to `output`.
pub fn encode_u32(value: u32, output: &mut Vec<u8>)
    ensures
        final(output)@ == old(output)@ + leb128(value),
{
    let mut v = value;
    let ghost start = old(output)@;
    let mut done = false;
    assert(Seq::<u8>::empty() + leb128(value) =~= leb128(value));
    assert(output@ =~= start + Seq::<u8>::empty());
    while !done
        invariant
            done ==> output@ == start + leb128(value),
            !done ==> exists|pre: Seq<u8>|
                pre + leb128(v) == leb128(value) && output@ == start + pre,
        decreases v, (if done { 0int } else { 1int }),
    {
        let ghost before = output@;
        let ghost pre = choose|pre: Seq<u8>| pre + leb128(v) == leb128(value) && output@ == start + pre;
        proof {
            assert(v & 0x7f == v % 128) by (bit_vector);
            assert(v >> 7 == v / 128) by (bit_vector);
        }
        let low = (v & 0x7f) as u8;
        let rest = v >> 7;
        if rest != 0 {
            output.push(low | 0x80);
            proof {
                assert(low < 128);
                assert(low | 0x80 == low + 128) by (bit_vector)
                    requires
                        low < 128,
                ;
                let p2 = pre.push((low + 128) as u8);
                assert(leb128(v) == seq![(low + 128) as u8] + leb128(rest));
                assert(p2 + leb128(rest) =~= pre + leb128(v));
                assert(output@ =~= start + p2);
            }
            v = rest;
        } else {
            output.push(low);
            proof {
                assert(leb128(v) == seq![low]);
                assert(output@ =~= start + (pre + leb128(v)));
            }
            done = true;
        }
    }
}

} // verus!
