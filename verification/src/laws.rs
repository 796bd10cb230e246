//! What the encoding promises as a whole: decoding gives back what was
//! encoded, whatever follows it, and `size` is the encoded length.
use vstd::prelude::*;
use vstd::arithmetic::power2::{lemma2_to64, lemma2_to64_rest, lemma_pow2_strictly_increases};
use crate::leb::{encode, varint_len, max_len, zigzag, lemma_encode_then, lemma_encode_len, lemma_first_stop, lemma_varint_len_le};
use crate::varint::{Varint, overlong, decode_groups};

verus! {

/// The encoding of `v` followed by anything is read back as `v`, and a
/// reader of a `bits`-wide integer that fits the encoding stays in range.
pub proof fn lemma_decode_encode(v: nat, rest: Seq<u8>, bits: nat)
    requires
        varint_len(v) <= max_len(bits),
    ensures
        !overlong(encode(v) + rest, bits),
        decode_groups(encode(v) + rest) == Ok::<(nat, usize), crate::varint::DecodeError>((v, varint_len(v) as usize)),
{
    lemma_encode_then(v, rest);
    lemma_encode_len(v);
    let s = encode(v) + rest;
    lemma_first_stop(s);
    let k = (varint_len(v) - 1) as nat;
    assert(s[k as int] < 128);
}


/// Reading back the encoding of a `u8`, followed by any bytes, gives the
/// value and the length of its encoding.
pub proof fn law_u8_roundtrip(x: u8, rest: Seq<u8>)
    ensures
        !overlong(x.spec_encoding() + rest, u8::spec_bits()),
        decode_groups(x.spec_encoding() + rest) matches Ok((raw, n)) && u8::spec_from_raw(raw) == x
            && n == x.spec_encoding().len(),
{
    lemma2_to64();
    lemma2_to64_rest();
    lemma_pow2_strictly_increases(8, 14);
    lemma_varint_len_le(x as nat, 2);
    lemma_decode_encode(x as nat, rest, 8);
    lemma_encode_len(x as nat);
}

/// The size of a `u8` is the length of its encoding.
pub proof fn law_u8_size_is_encoded_len(x: u8)
    ensures
        x.spec_size() == x.spec_encoding().len(),
{
    lemma_encode_len(x as nat);
}

/// Reading back the encoding of a `u16`, followed by any bytes, gives the
/// value and the length of its encoding.
pub proof fn law_u16_roundtrip(x: u16, rest: Seq<u8>)
    ensures
        !overlong(x.spec_encoding() + rest, u16::spec_bits()),
        decode_groups(x.spec_encoding() + rest) matches Ok((raw, n)) && u16::spec_from_raw(raw) == x
            && n == x.spec_encoding().len(),
{
    lemma2_to64();
    lemma2_to64_rest();
    lemma_pow2_strictly_increases(16, 21);
    lemma_varint_len_le(x as nat, 3);
    lemma_decode_encode(x as nat, rest, 16);
    lemma_encode_len(x as nat);
}

/// The size of a `u16` is the length of its encoding.
pub proof fn law_u16_size_is_encoded_len(x: u16)
    ensures
        x.spec_size() == x.spec_encoding().len(),
{
    lemma_encode_len(x as nat);
}

/// Reading back the encoding of a `u32`, followed by any bytes, gives the
/// value and the length of its encoding.
pub proof fn law_u32_roundtrip(x: u32, rest: Seq<u8>)
    ensures
        !overlong(x.spec_encoding() + rest, u32::spec_bits()),
        decode_groups(x.spec_encoding() + rest) matches Ok((raw, n)) && u32::spec_from_raw(raw) == x
            && n == x.spec_encoding().len(),
{
    lemma2_to64();
    lemma2_to64_rest();
    lemma_pow2_strictly_increases(32, 35);
    lemma_varint_len_le(x as nat, 5);
    lemma_decode_encode(x as nat, rest, 32);
    lemma_encode_len(x as nat);
}

/// The size of a `u32` is the length of its encoding.
pub proof fn law_u32_size_is_encoded_len(x: u32)
    ensures
        x.spec_size() == x.spec_encoding().len(),
{
    lemma_encode_len(x as nat);
}

/// Reading back the encoding of a `u64`, followed by any bytes, gives the
/// value and the length of its encoding.
pub proof fn law_u64_roundtrip(x: u64, rest: Seq<u8>)
    ensures
        !overlong(x.spec_encoding() + rest, u64::spec_bits()),
        decode_groups(x.spec_encoding() + rest) matches Ok((raw, n)) && u64::spec_from_raw(raw) == x
            && n == x.spec_encoding().len(),
{
    lemma2_to64();
    lemma2_to64_rest();
    lemma_pow2_strictly_increases(64, 70);
    lemma_varint_len_le(x as nat, 10);
    lemma_decode_encode(x as nat, rest, 64);
    lemma_encode_len(x as nat);
}

/// The size of a `u64` is the length of its encoding.
pub proof fn law_u64_size_is_encoded_len(x: u64)
    ensures
        x.spec_size() == x.spec_encoding().len(),
{
    lemma_encode_len(x as nat);
}

/// Reading back the encoding of an `i8` in `[-2^6, 2^6)`, followed by
/// any bytes, gives the value and the length of its encoding. Outside that
/// range the signed reader halves the raw bits as a negative number, and
/// the value does not come back.
pub proof fn law_i8_roundtrip(x: i8, rest: Seq<u8>)
    requires
        -0x40 <= x < 0x40,
    ensures
        !overlong(x.spec_encoding() + rest, i8::spec_bits()),
        decode_groups(x.spec_encoding() + rest) matches Ok((raw, n)) && i8::spec_from_raw(raw) == x
            && n == x.spec_encoding().len(),
{
    lemma2_to64();
    lemma2_to64_rest();
    let z = zigzag(x as int);
    lemma_pow2_strictly_increases(8, 14);
    lemma_varint_len_le(z, 2);
    lemma_decode_encode(z, rest, 8);
    lemma_encode_len(z);
    assert(z % 0x100 == z);
}

/// Reading back the encoding of an `i16` in `[-2^14, 2^14)`, followed by
/// any bytes, gives the value and the length of its encoding. Outside that
/// range the signed reader halves the raw bits as a negative number, and
/// the value does not come back.
pub proof fn law_i16_roundtrip(x: i16, rest: Seq<u8>)
    requires
        -0x4000 <= x < 0x4000,
    ensures
        !overlong(x.spec_encoding() + rest, i16::spec_bits()),
        decode_groups(x.spec_encoding() + rest) matches Ok((raw, n)) && i16::spec_from_raw(raw) == x
            && n == x.spec_encoding().len(),
{
    lemma2_to64();
    lemma2_to64_rest();
    let z = zigzag(x as int);
    lemma_pow2_strictly_increases(16, 21);
    lemma_varint_len_le(z, 3);
    lemma_decode_encode(z, rest, 16);
    lemma_encode_len(z);
    assert(z % 0x10000 == z);
}

/// Reading back the encoding of an `i32` in `[-2^30, 2^30)`, followed by
/// any bytes, gives the value and the length of its encoding. Outside that
/// range the signed reader halves the raw bits as a negative number, and
/// the value does not come back.
pub proof fn law_i32_roundtrip(x: i32, rest: Seq<u8>)
    requires
        -0x40000000 <= x < 0x40000000,
    ensures
        !overlong(x.spec_encoding() + rest, i32::spec_bits()),
        decode_groups(x.spec_encoding() + rest) matches Ok((raw, n)) && i32::spec_from_raw(raw) == x
            && n == x.spec_encoding().len(),
{
    lemma2_to64();
    lemma2_to64_rest();
    let z = zigzag(x as int);
    lemma_pow2_strictly_increases(32, 35);
    lemma_varint_len_le(z, 5);
    lemma_decode_encode(z, rest, 32);
    lemma_encode_len(z);
    assert(z % 0x100000000 == z);
}

/// Reading back the encoding of an `i64` in `[-2^62, 2^62)`, followed by
/// any bytes, gives the value and the length of its encoding. Outside that
/// range the signed reader halves the raw bits as a negative number, and
/// the value does not come back.
pub proof fn law_i64_roundtrip(x: i64, rest: Seq<u8>)
    requires
        -0x4000000000000000 <= x < 0x4000000000000000,
    ensures
        !overlong(x.spec_encoding() + rest, i64::spec_bits()),
        decode_groups(x.spec_encoding() + rest) matches Ok((raw, n)) && i64::spec_from_raw(raw) == x
            && n == x.spec_encoding().len(),
{
    lemma2_to64();
    lemma2_to64_rest();
    let z = zigzag(x as int);
    lemma_pow2_strictly_increases(64, 70);
    lemma_varint_len_le(z, 10);
    lemma_decode_encode(z, rest, 64);
    lemma_encode_len(z);
    assert(z % 0x10000000000000000 == z);
}

} // verus!
