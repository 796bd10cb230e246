//! What each integer type's encoding, size and decoded value are, stated
//! over the bytes and numbers themselves.
use vstd::prelude::*;
use vstd::arithmetic::power2::{pow2, lemma2_to64, lemma2_to64_rest, lemma_pow2_strictly_increases};
use crate::leb::{encode, groups_value, varint_len, lemma_encode_len, lemma_varint_len_le, lemma_varint_len_pos};
use crate::varint::Varint;

verus! {

/// `e` is a well-formed varint of `v`: at least one byte, the high bit set
/// on every byte but the last, no zero last group after the first byte, and
/// the seven-bit groups, least significant first, spell `v`.
pub open spec fn is_varint_of(e: Seq<u8>, v: nat) -> bool {
    &&& e.len() >= 1
    &&& e.last() < 128
    &&& forall|i: int| 0 <= i < e.len() - 1 ==> e[i] >= 128
    &&& (e.len() == 1 || e.last() != 0)
    &&& groups_value(e) == v
}

/// `s` is the number of base-128 digits of `u`.
pub open spec fn is_digit_count(s: nat, u: nat) -> bool {
    &&& s >= 1
    &&& u < pow2(7 * s)
    &&& (s == 1 || pow2(7 * (s - 1) as nat) <= u)
}

/// The encoding of `v` is a well-formed varint of `v`.
pub proof fn lemma_encode_is_varint(v: nat)
    ensures
        is_varint_of(encode(v), v),
    decreases v,
{
    crate::leb::lemma_encode_then(v, Seq::<u8>::empty());
    if v >= 128 {
        lemma_encode_is_varint(v / 128);
        let t = encode(v / 128);
        let e = encode(v);
        assert(e == seq![(v % 128 + 128) as u8] + t);
        assert(e.last() == t.last());
        assert forall|i: int| 0 <= i < e.len() - 1 implies e[i] >= 128 by {
            if i > 0 {
                assert(e[i] == t[i - 1]);
            }
        }
        if t.len() == 1 {
            assert(t[0] == (v / 128) as u8);
        }
    }
}

/// The number of bytes of the encoding of `u` is its number of base-128
/// digits.
pub proof fn lemma_varint_len_digits(u: nat)
    ensures
        is_digit_count(varint_len(u), u),
{
    lemma_varint_len_pos(u);
    let s = varint_len(u);
    lemma_varint_len_le(u, s);
    if s > 1 {
        lemma_varint_len_le(u, (s - 1) as nat);
    }
}


/// A `u8` is written as the well-formed varint of its value.
pub proof fn law_u8_encoding(x: u8)
    ensures
        is_varint_of(x.spec_encoding(), x as nat),
{
    lemma_encode_is_varint(x as nat);
}

/// The size of a `u8` is the number of base-128 digits of its value.
pub proof fn law_u8_size(x: u8)
    ensures
        is_digit_count(x.spec_size(), x as nat),
{
    lemma_varint_len_digits(x as nat);
}

/// The `u8` read from the groups `raw` is `raw` modulo 2^8.
pub proof fn law_u8_from_raw(raw: nat)
    ensures
        u8::spec_from_raw(raw) as nat == raw % 0x100,
{
}

/// A `u16` is written as the well-formed varint of its value.
pub proof fn law_u16_encoding(x: u16)
    ensures
        is_varint_of(x.spec_encoding(), x as nat),
{
    lemma_encode_is_varint(x as nat);
}

/// The size of a `u16` is the number of base-128 digits of its value.
pub proof fn law_u16_size(x: u16)
    ensures
        is_digit_count(x.spec_size(), x as nat),
{
    lemma_varint_len_digits(x as nat);
}

/// The `u16` read from the groups `raw` is `raw` modulo 2^16.
pub proof fn law_u16_from_raw(raw: nat)
    ensures
        u16::spec_from_raw(raw) as nat == raw % 0x10000,
{
}

/// A `u32` is written as the well-formed varint of its value.
pub proof fn law_u32_encoding(x: u32)
    ensures
        is_varint_of(x.spec_encoding(), x as nat),
{
    lemma_encode_is_varint(x as nat);
}

/// The size of a `u32` is the number of base-128 digits of its value.
pub proof fn law_u32_size(x: u32)
    ensures
        is_digit_count(x.spec_size(), x as nat),
{
    lemma_varint_len_digits(x as nat);
}

/// The `u32` read from the groups `raw` is `raw` modulo 2^32.
pub proof fn law_u32_from_raw(raw: nat)
    ensures
        u32::spec_from_raw(raw) as nat == raw % 0x100000000,
{
}

/// A `u64` is written as the well-formed varint of its value.
pub proof fn law_u64_encoding(x: u64)
    ensures
        is_varint_of(x.spec_encoding(), x as nat),
{
    lemma_encode_is_varint(x as nat);
}

/// The size of a `u64` is the number of base-128 digits of its value.
pub proof fn law_u64_size(x: u64)
    ensures
        is_digit_count(x.spec_size(), x as nat),
{
    lemma_varint_len_digits(x as nat);
}

/// The `u64` read from the groups `raw` is `raw` modulo 2^64.
pub proof fn law_u64_from_raw(raw: nat)
    ensures
        u64::spec_from_raw(raw) as nat == raw % 0x10000000000000000,
{
}

/// An `i8` is written as the well-formed varint of its zigzag image:
/// `2x` for `x >= 0`, `-2x - 1` for `x < 0`, over the whole range.
pub proof fn law_i8_encoding(x: i8)
    ensures
        is_varint_of(x.spec_encoding(), (if x >= 0 { 2 * x } else { -2 * x - 1 }) as nat),
{
    lemma_encode_is_varint(crate::leb::zigzag(x as int));
}

/// The size of an `i8` is the number of base-128 digits of its 8-bit two's
/// complement bits read unsigned: `x` for `x >= 0`, `x + 2^8` otherwise.
pub proof fn law_i8_size(x: i8)
    ensures
        is_digit_count(x.spec_size(), (if x >= 0 { x as int } else { x + 0x100 }) as nat),
{
    lemma_varint_len_digits((if x >= 0 { x as int } else { x + 0x100 }) as nat);
}

/// The `i8` read from the groups `raw`: the low 8 bits of `raw` read as
/// a two's complement number `e`, then halved rounding down, with the sign
/// flipped when `e` is odd: `2r == e` for even `e`, `2r == -e - 1` for odd.
pub proof fn law_i8_from_raw(raw: nat)
    ensures
        ({
            let u = raw % 0x100;
            let e = if u < 0x80 { u as int } else { u - 0x100 };
            let r = i8::spec_from_raw(raw) as int;
            &&& e % 2 == 0 ==> 2 * r == e
            &&& e % 2 != 0 ==> 2 * r == -e - 1
        }),
{
    let u = raw % 0x100;
    let e = if u < 0x80 { u as int } else { u - 0x100 };
    assert(-0x80 <= e < 0x80);
}

/// An `i16` is written as the well-formed varint of its zigzag image:
/// `2x` for `x >= 0`, `-2x - 1` for `x < 0`, over the whole range.
pub proof fn law_i16_encoding(x: i16)
    ensures
        is_varint_of(x.spec_encoding(), (if x >= 0 { 2 * x } else { -2 * x - 1 }) as nat),
{
    lemma_encode_is_varint(crate::leb::zigzag(x as int));
}

/// The size of an `i16` is the number of base-128 digits of its 16-bit two's
/// complement bits read unsigned: `x` for `x >= 0`, `x + 2^16` otherwise.
pub proof fn law_i16_size(x: i16)
    ensures
        is_digit_count(x.spec_size(), (if x >= 0 { x as int } else { x + 0x10000 }) as nat),
{
    lemma_varint_len_digits((if x >= 0 { x as int } else { x + 0x10000 }) as nat);
}

/// The `i16` read from the groups `raw`: the low 16 bits of `raw` read as
/// a two's complement number `e`, then halved rounding down, with the sign
/// flipped when `e` is odd: `2r == e` for even `e`, `2r == -e - 1` for odd.
pub proof fn law_i16_from_raw(raw: nat)
    ensures
        ({
            let u = raw % 0x10000;
            let e = if u < 0x8000 { u as int } else { u - 0x10000 };
            let r = i16::spec_from_raw(raw) as int;
            &&& e % 2 == 0 ==> 2 * r == e
            &&& e % 2 != 0 ==> 2 * r == -e - 1
        }),
{
    let u = raw % 0x10000;
    let e = if u < 0x8000 { u as int } else { u - 0x10000 };
    assert(-0x8000 <= e < 0x8000);
}

/// An `i32` is written as the well-formed varint of its zigzag image:
/// `2x` for `x >= 0`, `-2x - 1` for `x < 0`, over the whole range.
pub proof fn law_i32_encoding(x: i32)
    ensures
        is_varint_of(x.spec_encoding(), (if x >= 0 { 2 * x } else { -2 * x - 1 }) as nat),
{
    lemma_encode_is_varint(crate::leb::zigzag(x as int));
}

/// The size of an `i32` is the number of base-128 digits of its 32-bit two's
/// complement bits read unsigned: `x` for `x >= 0`, `x + 2^32` otherwise.
pub proof fn law_i32_size(x: i32)
    ensures
        is_digit_count(x.spec_size(), (if x >= 0 { x as int } else { x + 0x100000000 }) as nat),
{
    lemma_varint_len_digits((if x >= 0 { x as int } else { x + 0x100000000 }) as nat);
}

/// The `i32` read from the groups `raw`: the low 32 bits of `raw` read as
/// a two's complement number `e`, then halved rounding down, with the sign
/// flipped when `e` is odd: `2r == e` for even `e`, `2r == -e - 1` for odd.
pub proof fn law_i32_from_raw(raw: nat)
    ensures
        ({
            let u = raw % 0x100000000;
            let e = if u < 0x80000000 { u as int } else { u - 0x100000000 };
            let r = i32::spec_from_raw(raw) as int;
            &&& e % 2 == 0 ==> 2 * r == e
            &&& e % 2 != 0 ==> 2 * r == -e - 1
        }),
{
    let u = raw % 0x100000000;
    let e = if u < 0x80000000 { u as int } else { u - 0x100000000 };
    assert(-0x80000000 <= e < 0x80000000);
}

/// An `i64` is written as the well-formed varint of its zigzag image:
/// `2x` for `x >= 0`, `-2x - 1` for `x < 0`, over the whole range.
pub proof fn law_i64_encoding(x: i64)
    ensures
        is_varint_of(x.spec_encoding(), (if x >= 0 { 2 * x } else { -2 * x - 1 }) as nat),
{
    lemma_encode_is_varint(crate::leb::zigzag(x as int));
}

/// The size of an `i64` is the number of base-128 digits of its 64-bit two's
/// complement bits read unsigned: `x` for `x >= 0`, `x + 2^64` otherwise.
pub proof fn law_i64_size(x: i64)
    ensures
        is_digit_count(x.spec_size(), (if x >= 0 { x as int } else { x + 0x10000000000000000 }) as nat),
{
    lemma_varint_len_digits((if x >= 0 { x as int } else { x + 0x10000000000000000 }) as nat);
}

/// The `i64` read from the groups `raw`: the low 64 bits of `raw` read as
/// a two's complement number `e`, then halved rounding down, with the sign
/// flipped when `e` is odd: `2r == e` for even `e`, `2r == -e - 1` for odd.
pub proof fn law_i64_from_raw(raw: nat)
    ensures
        ({
            let u = raw % 0x10000000000000000;
            let e = if u < 0x8000000000000000 { u as int } else { u - 0x10000000000000000 };
            let r = i64::spec_from_raw(raw) as int;
            &&& e % 2 == 0 ==> 2 * r == e
            &&& e % 2 != 0 ==> 2 * r == -e - 1
        }),
{
    let u = raw % 0x10000000000000000;
    let e = if u < 0x8000000000000000 { u as int } else { u - 0x10000000000000000 };
    assert(-0x8000000000000000 <= e < 0x8000000000000000);
}

} // verus!
