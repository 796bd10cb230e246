//! Encoded sizes of 32- and 64-bit values.
use vstd::prelude::*;
use vstd::arithmetic::power2::{lemma2_to64, lemma2_to64_rest};
use crate::leb::{varint_len, lemma_varint_len_le};

verus! {

/// Bytes needed to encode the 32-bit value `value`: a negative value is
/// encoded through its two's complement bits, which take five bytes.
pub fn size_32(value: i32) -> (r: u8)
    ensures
        value < 0 ==> r == 5,
        value >= 0 ==> r == varint_len(value as nat),
{
    proof {
        lemma2_to64();
        lemma2_to64_rest();
    }
    if value & (!0i32 << 7) == 0 {
        assert(0 <= value < 0x80) by (bit_vector)
            requires value & (!0i32 << 7) == 0;
        proof { lemma_varint_len_le(value as nat, 1); }
        return 1;
    }
    assert(value < 0 || value >= 0x80) by (bit_vector)
        requires value & (!0i32 << 7) != 0;
    if value & (!0i32 << 14) == 0 {
        assert(0 <= value < 0x4000) by (bit_vector)
            requires value & (!0i32 << 14) == 0;
        proof { lemma_varint_len_le(value as nat, 1); lemma_varint_len_le(value as nat, 2); }
        return 2;
    }
    assert(value < 0 || value >= 0x4000) by (bit_vector)
        requires value & (!0i32 << 14) != 0;
    if value & (!0i32 << 21) == 0 {
        assert(0 <= value < 0x200000) by (bit_vector)
            requires value & (!0i32 << 21) == 0;
        proof { lemma_varint_len_le(value as nat, 2); lemma_varint_len_le(value as nat, 3); }
        return 3;
    }
    assert(value < 0 || value >= 0x200000) by (bit_vector)
        requires value & (!0i32 << 21) != 0;
    if value & (!0i32 << 28) == 0 {
        assert(0 <= value < 0x10000000) by (bit_vector)
            requires value & (!0i32 << 28) == 0;
        proof { lemma_varint_len_le(value as nat, 3); lemma_varint_len_le(value as nat, 4); }
        return 4;
    }
    assert(value < 0 || value >= 0x10000000) by (bit_vector)
        requires value & (!0i32 << 28) != 0;
    if value >= 0 {
        proof { lemma_varint_len_le(value as nat, 4); lemma_varint_len_le(value as nat, 5); }
    }
    5
}

} // verus!

verus! {

proof fn lemma_i64_size_facts(v: i64)
    by (bit_vector)
    requires
        v >= 0,
    ensures
        (v & (!0i64 << 7) == 0) == (v < 0x80),
        (v & (!0i64 << 14) == 0) == (v < 0x4000),
        (v & (!0i64 << 21) == 0) == (v < 0x200000),
        (v & (!0i64 << 35) == 0) == (v < 0x800000000),
        (v >> 14) >= 0,
        (v >> 28) >= 0,
        ((v >> 14) >= 0x4000) == (v >= 0x10000000),
        ((v >> 28) >= 0x4000) == (v >= 0x40000000000),
        ((v >> 28) >= 0x200000) == (v >= 0x2000000000000),
        (((v >> 28) >> 14) >= 0x4000) == (v >= 0x100000000000000),
        ((v >> 28) >> 14) >= 0,
{
}

/// Bytes needed to encode the 64-bit value `value`: a negative value is
/// encoded through its two's complement bits, which take ten bytes.
pub fn size_64(value: i64) -> (r: u8)
    ensures
        value < 0 ==> r == 10,
        value >= 0 ==> r == varint_len(value as nat),
{
    let ghost v0 = value;
    let mut value = value;
    proof {
        lemma2_to64();
        lemma2_to64_rest();
    }
    // The two most common cases first.
    if value & (!0i64 << 7) == 0 {
        assert(0 <= value < 0x80) by (bit_vector)
            requires value & (!0i64 << 7) == 0;
        proof { lemma_varint_len_le(v0 as nat, 1); }
        return 1;
    }
    if value < 0 {
        return 10;
    }
    proof {
        lemma_i64_size_facts(v0);
        lemma_i64_size_facts(v0 >> 28);
    }
    // Eight sizes remain: halve the range three times.
    let mut size: u8 = 2;
    if value & (!0i64 << 35) != 0 {
        size += 4;
        value >>= 28;
    }
    proof { lemma_i64_size_facts(value); }
    if value & (!0i64 << 21) != 0 {
        size += 2;
        value >>= 14;
    }
    proof { lemma_i64_size_facts(value); }
    if value & (!0i64 << 14) != 0 {
        size += 1;
    }
    proof {
        let n = v0 as nat;
        assert(2 <= size <= 9);
        assert(size == 2 ==> n < 0x4000);
        assert(size == 3 ==> 0x4000 <= n < 0x200000);
        assert(size == 4 ==> 0x200000 <= n < 0x10000000);
        assert(size == 5 ==> 0x10000000 <= n < 0x800000000);
        assert(size == 6 ==> 0x800000000 <= n < 0x40000000000);
        assert(size == 7 ==> 0x40000000000 <= n < 0x2000000000000);
        assert(size == 8 ==> 0x2000000000000 <= n < 0x100000000000000);
        assert(size == 9 ==> 0x100000000000000 <= n);
        assert(n < 0x8000000000000000);
        lemma_varint_len_le(n, (size - 1) as nat);
        lemma_varint_len_le(n, size as nat);
    }
    size
}

} // verus!
