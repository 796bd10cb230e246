//! The varint encoding of each integer type: unsigned values directly,
//! signed values through the zigzag map.
use vstd::prelude::*;
use vstd::arithmetic::power2::{pow2, lemma2_to64, lemma2_to64_rest, lemma_pow2_strictly_increases};
use vstd::arithmetic::div_mod::lemma_mod_mod;
use crate::leb::{varint_len, encode, zigzag, unsigned_of, signed_of, unzigzag, lemma_varint_len_le};
use crate::size::{size_32, size_64};
use crate::varint::{Varint, VarintDecoder, write_varint};

verus! {

proof fn lemma_wraps(raw: nat, k: nat, m: nat)
    requires
        k <= 64,
        m == pow2(k),
    ensures
        (raw % pow2(64)) % m == raw % m,
{
    lemma2_to64();
    vstd::arithmetic::power2::lemma_pow2_pos(k);
    vstd::arithmetic::power2::lemma_pow2_pos((64 - k) as nat);
    vstd::arithmetic::power2::lemma_pow2_adds(k, (64 - k) as nat);
    lemma_mod_mod(raw as int, m as int, pow2((64 - k) as nat) as int);
}

impl Varint for u8 {
    open spec fn spec_bits() -> nat {
        8
    }

    open spec fn spec_size(&self) -> nat {
        varint_len(*self as nat)
    }

    open spec fn spec_encoding(&self) -> Seq<u8> {
        encode(*self as nat)
    }

    open spec fn spec_from_raw(raw: nat) -> u8 {
        (raw % 0x100) as u8
    }

    proof fn lemma_from_raw_wraps(raw: nat) {
        lemma2_to64();
        lemma_wraps(raw, 8, 0x100);
    }

    fn size(&self) -> (r: u8) {
        size_32(*self as i32)
    }

    fn serialize(&self, writer: &mut Vec<u8>) {
        write_varint(*self as u64, writer);
    }

    fn decoder() -> (d: VarintDecoder) {
        VarintDecoder::new(8)
    }

    fn from_raw(raw: u64) -> (r: u8) {
        assert((raw as u8) == raw % 0x100) by (bit_vector);
        raw as u8
    }
}

impl Varint for u16 {
    open spec fn spec_bits() -> nat {
        16
    }

    open spec fn spec_size(&self) -> nat {
        varint_len(*self as nat)
    }

    open spec fn spec_encoding(&self) -> Seq<u8> {
        encode(*self as nat)
    }

    open spec fn spec_from_raw(raw: nat) -> u16 {
        (raw % 0x10000) as u16
    }

    proof fn lemma_from_raw_wraps(raw: nat) {
        lemma2_to64();
        lemma_wraps(raw, 16, 0x10000);
    }

    fn size(&self) -> (r: u8) {
        size_32(*self as i32)
    }

    fn serialize(&self, writer: &mut Vec<u8>) {
        write_varint(*self as u64, writer);
    }

    fn decoder() -> (d: VarintDecoder) {
        VarintDecoder::new(16)
    }

    fn from_raw(raw: u64) -> (r: u16) {
        assert((raw as u16) == raw % 0x10000) by (bit_vector);
        raw as u16
    }
}

impl Varint for u32 {
    open spec fn spec_bits() -> nat {
        32
    }

    open spec fn spec_size(&self) -> nat {
        varint_len(*self as nat)
    }

    open spec fn spec_encoding(&self) -> Seq<u8> {
        encode(*self as nat)
    }

    open spec fn spec_from_raw(raw: nat) -> u32 {
        (raw % 0x100000000) as u32
    }

    proof fn lemma_from_raw_wraps(raw: nat) {
        lemma2_to64();
        lemma_wraps(raw, 32, 0x100000000);
    }

    fn size(&self) -> (r: u8) {
        let x = *self;
        assert(((x as i32) < 0) == (x >= 0x80000000) && ((x as i32) >= 0 ==> (x as i32) == x)) by (bit_vector);
        proof {
            lemma2_to64();
            lemma2_to64_rest();
            if x >= 0x80000000 {
                lemma_varint_len_le(x as nat, 4);
                lemma_varint_len_le(x as nat, 5);
            }
        }
        size_32(x as i32)
    }

    fn serialize(&self, writer: &mut Vec<u8>) {
        write_varint(*self as u64, writer);
    }

    fn decoder() -> (d: VarintDecoder) {
        VarintDecoder::new(32)
    }

    fn from_raw(raw: u64) -> (r: u32) {
        assert((raw as u32) == raw % 0x100000000) by (bit_vector);
        raw as u32
    }
}

impl Varint for u64 {
    open spec fn spec_bits() -> nat {
        64
    }

    open spec fn spec_size(&self) -> nat {
        varint_len(*self as nat)
    }

    open spec fn spec_encoding(&self) -> Seq<u8> {
        encode(*self as nat)
    }

    open spec fn spec_from_raw(raw: nat) -> u64 {
        (raw % 0x10000000000000000) as u64
    }

    proof fn lemma_from_raw_wraps(raw: nat) {
        lemma2_to64();
        lemma_wraps(raw, 64, 0x10000000000000000);
    }

    fn size(&self) -> (r: u8) {
        let x = *self;
        assert(((x as i64) < 0) == (x >= 0x8000000000000000) && ((x as i64) >= 0 ==> (x as i64) == x)) by (bit_vector);
        proof {
            lemma2_to64();
            lemma2_to64_rest();
            if x >= 0x8000000000000000 {
                lemma_pow2_strictly_increases(64, 70);
                lemma_varint_len_le(x as nat, 9);
                lemma_varint_len_le(x as nat, 10);
            }
        }
        size_64(x as i64)
    }

    fn serialize(&self, writer: &mut Vec<u8>) {
        write_varint(*self, writer);
    }

    fn decoder() -> (d: VarintDecoder) {
        VarintDecoder::new(64)
    }

    fn from_raw(raw: u64) -> (r: u64) {
        raw
    }
}

} // verus!

verus! {

impl Varint for i8 {
    open spec fn spec_bits() -> nat {
        8
    }

    open spec fn spec_size(&self) -> nat {
        varint_len(unsigned_of(*self as int, 0x100))
    }

    open spec fn spec_encoding(&self) -> Seq<u8> {
        encode(zigzag(*self as int))
    }

    open spec fn spec_from_raw(raw: nat) -> i8 {
        unzigzag(signed_of(raw % 0x100, 0x100)) as i8
    }

    proof fn lemma_from_raw_wraps(raw: nat) {
        lemma2_to64();
        lemma_wraps(raw, 8, 0x100);
    }

    fn size(&self) -> (r: u8) {
        let x = *self;
        assert((x >= 0 ==> (x as u8) == x) && (x < 0 ==> (x as u8) == x + 0x100)) by (bit_vector);
        (x as u8).size()
    }

    fn serialize(&self, writer: &mut Vec<u8>) {
        let x = *self;
        // Zigzag: the sign moves to the lowest bit.
        let encoded = ((x << 1) ^ (x >> 7)) as u8;
        assert((x >= 0 ==> ((x << 1) ^ (x >> 7)) as u8 == 2 * x) && (x < 0 ==> ((x << 1) ^ (x >> 7)) as u8 == -2 * x - 1)) by (bit_vector);
        encoded.serialize(writer);
    }

    fn decoder() -> (d: VarintDecoder) {
        VarintDecoder::new(8)
    }

    fn from_raw(raw: u64) -> (r: i8) {
        let unsigned = u8::from_raw(raw);
        let encoded = unsigned as i8;
        assert(((unsigned as i8) & 1 == 0 || (unsigned as i8) & 1 == 1) && (2 * unsigned < 0x100 ==> (unsigned as i8) == unsigned) && (2 * unsigned >= 0x100 ==> (unsigned as i8) == unsigned - 0x100)) by (bit_vector);
        let low = encoded & 1;
        let mask = -low;
        let r = (encoded >> 1) ^ mask;
        assert((r * 2 == encoded) || (r * 2 == -encoded - 1)) by (bit_vector)
            requires low == encoded & 1, mask == -low, r == (encoded >> 1) ^ mask;
        r
    }
}

impl Varint for i16 {
    open spec fn spec_bits() -> nat {
        16
    }

    open spec fn spec_size(&self) -> nat {
        varint_len(unsigned_of(*self as int, 0x10000))
    }

    open spec fn spec_encoding(&self) -> Seq<u8> {
        encode(zigzag(*self as int))
    }

    open spec fn spec_from_raw(raw: nat) -> i16 {
        unzigzag(signed_of(raw % 0x10000, 0x10000)) as i16
    }

    proof fn lemma_from_raw_wraps(raw: nat) {
        lemma2_to64();
        lemma_wraps(raw, 16, 0x10000);
    }

    fn size(&self) -> (r: u8) {
        let x = *self;
        assert((x >= 0 ==> (x as u16) == x) && (x < 0 ==> (x as u16) == x + 0x10000)) by (bit_vector);
        (x as u16).size()
    }

    fn serialize(&self, writer: &mut Vec<u8>) {
        let x = *self;
        // Zigzag: the sign moves to the lowest bit.
        let encoded = ((x << 1) ^ (x >> 15)) as u16;
        assert((x >= 0 ==> ((x << 1) ^ (x >> 15)) as u16 == 2 * x) && (x < 0 ==> ((x << 1) ^ (x >> 15)) as u16 == -2 * x - 1)) by (bit_vector);
        encoded.serialize(writer);
    }

    fn decoder() -> (d: VarintDecoder) {
        VarintDecoder::new(16)
    }

    fn from_raw(raw: u64) -> (r: i16) {
        let unsigned = u16::from_raw(raw);
        let encoded = unsigned as i16;
        assert(((unsigned as i16) & 1 == 0 || (unsigned as i16) & 1 == 1) && (2 * unsigned < 0x10000 ==> (unsigned as i16) == unsigned) && (2 * unsigned >= 0x10000 ==> (unsigned as i16) == unsigned - 0x10000)) by (bit_vector);
        let low = encoded & 1;
        let mask = -low;
        let r = (encoded >> 1) ^ mask;
        assert((r * 2 == encoded) || (r * 2 == -encoded - 1)) by (bit_vector)
            requires low == encoded & 1, mask == -low, r == (encoded >> 1) ^ mask;
        r
    }
}

impl Varint for i32 {
    open spec fn spec_bits() -> nat {
        32
    }

    open spec fn spec_size(&self) -> nat {
        varint_len(unsigned_of(*self as int, 0x100000000))
    }

    open spec fn spec_encoding(&self) -> Seq<u8> {
        encode(zigzag(*self as int))
    }

    open spec fn spec_from_raw(raw: nat) -> i32 {
        unzigzag(signed_of(raw % 0x100000000, 0x100000000)) as i32
    }

    proof fn lemma_from_raw_wraps(raw: nat) {
        lemma2_to64();
        lemma_wraps(raw, 32, 0x100000000);
    }

    fn size(&self) -> (r: u8) {
        let x = *self;
        assert((x >= 0 ==> (x as u32) == x) && (x < 0 ==> (x as u32) == x + 0x100000000)) by (bit_vector);
        (x as u32).size()
    }

    fn serialize(&self, writer: &mut Vec<u8>) {
        let x = *self;
        // Zigzag: the sign moves to the lowest bit.
        let encoded = ((x << 1) ^ (x >> 31)) as u32;
        assert((x >= 0 ==> ((x << 1) ^ (x >> 31)) as u32 == 2 * x) && (x < 0 ==> ((x << 1) ^ (x >> 31)) as u32 == -2 * x - 1)) by (bit_vector);
        encoded.serialize(writer);
    }

    fn decoder() -> (d: VarintDecoder) {
        VarintDecoder::new(32)
    }

    fn from_raw(raw: u64) -> (r: i32) {
        let unsigned = u32::from_raw(raw);
        let encoded = unsigned as i32;
        assert(((unsigned as i32) & 1 == 0 || (unsigned as i32) & 1 == 1) && (2 * unsigned < 0x100000000 ==> (unsigned as i32) == unsigned) && (2 * unsigned >= 0x100000000 ==> (unsigned as i32) == unsigned - 0x100000000)) by (bit_vector);
        let low = encoded & 1;
        let mask = -low;
        let r = (encoded >> 1) ^ mask;
        assert((r * 2 == encoded) || (r * 2 == -encoded - 1)) by (bit_vector)
            requires low == encoded & 1, mask == -low, r == (encoded >> 1) ^ mask;
        r
    }
}

impl Varint for i64 {
    open spec fn spec_bits() -> nat {
        64
    }

    open spec fn spec_size(&self) -> nat {
        varint_len(unsigned_of(*self as int, 0x10000000000000000))
    }

    open spec fn spec_encoding(&self) -> Seq<u8> {
        encode(zigzag(*self as int))
    }

    open spec fn spec_from_raw(raw: nat) -> i64 {
        unzigzag(signed_of(raw % 0x10000000000000000, 0x10000000000000000)) as i64
    }

    proof fn lemma_from_raw_wraps(raw: nat) {
        lemma2_to64();
        lemma_wraps(raw, 64, 0x10000000000000000);
    }

    fn size(&self) -> (r: u8) {
        let x = *self;
        assert((x >= 0 ==> (x as u64) == x) && (x < 0 ==> (x as u64) == x + 0x10000000000000000)) by (bit_vector);
        (x as u64).size()
    }

    fn serialize(&self, writer: &mut Vec<u8>) {
        let x = *self;
        // Zigzag: the sign moves to the lowest bit.
        let encoded = ((x << 1) ^ (x >> 63)) as u64;
        assert((x >= 0 ==> ((x << 1) ^ (x >> 63)) as u64 == 2 * x) && (x < 0 ==> ((x << 1) ^ (x >> 63)) as u64 == -2 * x - 1)) by (bit_vector);
        encoded.serialize(writer);
    }

    fn decoder() -> (d: VarintDecoder) {
        VarintDecoder::new(64)
    }

    fn from_raw(raw: u64) -> (r: i64) {
        let unsigned = u64::from_raw(raw);
        let encoded = unsigned as i64;
        assert(((unsigned as i64) & 1 == 0 || (unsigned as i64) & 1 == 1) && (2 * unsigned < 0x10000000000000000 ==> (unsigned as i64) == unsigned) && (2 * unsigned >= 0x10000000000000000 ==> (unsigned as i64) == unsigned - 0x10000000000000000)) by (bit_vector);
        let low = encoded & 1;
        let mask = -low;
        let r = (encoded >> 1) ^ mask;
        assert((r * 2 == encoded) || (r * 2 == -encoded - 1)) by (bit_vector)
            requires low == encoded & 1, mask == -low, r == (encoded >> 1) ^ mask;
        r
    }
}

} // verus!
