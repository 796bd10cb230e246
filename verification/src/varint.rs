//! Varint encoding and decoding of the integer types.
use vstd::prelude::*;
use vstd::arithmetic::power2::{pow2, lemma2_to64, lemma2_to64_rest, lemma_pow2_adds, lemma_pow2_pos, lemma_pow2_strictly_increases};
use vstd::bits::{lemma_u64_shl_is_mul, lemma_u64_pow2_no_overflow};
use crate::leb::{encode, groups_value, first_stop, max_len, lemma_groups_push, lemma_groups_bound, lemma_first_stop};

verus! {

/// Why a varint could not be read.
#[derive(Debug, Clone, Copy, PartialEq, Eq, Structural)]
pub enum DecodeError {
    /// The bytes ended before a byte with a clear high bit.
    UnexpectedEof,
}

/// Appends the base-128 encoding of `value` to `writer`.
pub(crate) fn write_varint(value: u64, writer: &mut Vec<u8>)
    ensures
        final(writer)@ == old(writer)@ + encode(value as nat),
{
    let ghost start = writer@;
    let mut rest = value;
    while rest & !0x7f != 0
        invariant
            start + encode(value as nat) == writer@ + encode(rest as nat),
        decreases rest,
    {
        let ghost before = writer@;
        assert(rest >= 128 && (rest as u8 & 0x7f | 0x80) == rest % 128 + 128 && rest >> 7 == rest / 128) by (bit_vector)
            requires rest & !0x7fu64 != 0;
        writer.push(rest as u8 & 0x7f | 0x80);
        let ghost old_rest = rest;
        rest >>= 7;
        assert(encode(old_rest as nat) == seq![(old_rest % 128 + 128) as u8] + encode(rest as nat));
        assert(writer@ + encode(rest as nat) =~= before + encode(old_rest as nat));
    }
    let ghost before = writer@;
    assert(rest < 128) by (bit_vector)
        requires rest & !0x7fu64 == 0;
    writer.push(rest as u8);
    assert(writer@ =~= before + encode(rest as nat));
}

/// Incremental reader of one varint, fed one byte at a time, that
/// accumulates the groups into a 64-bit value as the bytes arrive.
pub struct VarintDecoder {
    value: u64,
    count: u32,
    bits: u32,
}

impl VarintDecoder {
    /// The value of the groups read so far, modulo 2^64.
    pub closed spec fn acc(&self) -> nat {
        self.value as nat
    }

    /// The number of bytes read so far.
    pub closed spec fn count(&self) -> nat {
        self.count as nat
    }

    /// The width of the integer being read.
    pub closed spec fn bits(&self) -> nat {
        self.bits as nat
    }

    #[verifier::type_invariant]
    closed spec fn inv(&self) -> bool {
        &&& (self.bits == 8 || self.bits == 16 || self.bits == 32 || self.bits == 64)
        &&& 7 * self.count < self.bits + 7
        &&& self.count <= 9 ==> self.value < pow2(7 * self.count as nat)
    }

    /// A decoder for an integer of `bits` bits that has read nothing.
    pub fn new(bits: u32) -> (d: Self)
        requires
            bits == 8 || bits == 16 || bits == 32 || bits == 64,
        ensures
            d.acc() == 0,
            d.count() == 0,
            d.bits() == bits,
    {
        proof { lemma2_to64(); }
        VarintDecoder { value: 0, count: 0, bits }
    }

    /// Whether one more byte can be read: the shift of its group stays
    /// below the width of the integer.
    pub fn can_feed(&self) -> (r: bool)
        ensures
            r == (7 * self.count() < self.bits()),
    {
        proof { use_type_invariant(self); }
        self.count * 7 < self.bits
    }

    /// Reads one byte: its low seven bits join the value at the next group
    /// position; the value is complete once a byte with a clear high bit
    /// arrives.
    pub fn feed(&mut self, byte: u8) -> (r: Option<u64>)
        requires
            7 * old(self).count() < old(self).bits(),
        ensures
            final(self).bits() == old(self).bits(),
            final(self).count() == old(self).count() + 1,
            final(self).acc() == (old(self).acc() + (byte % 128) as nat * pow2(7 * old(self).count()))
                % pow2(64),
            r == (if byte < 128 { Some(final(self).acc() as u64) } else { None::<u64> }),
    {
        proof {
            use_type_invariant(&*self);
            lemma2_to64();
            lemma2_to64_rest();
        }
        let shift: u32 = self.count * 7;
        let group: u64 = (byte & 0x7f) as u64;
        assert(group == byte % 128) by (bit_vector)
            requires group == (byte & 0x7f) as u64;
        let ghost c = self.count as nat;
        let ghost p = pow2(7 * c);
        let ghost sum = self.value as nat + group as nat * p;
        let value = self.value | (group << shift);
        proof {
            lemma_pow2_pos(7 * c);
            if c <= 8 {
                let s = shift as u64;
                lemma_u64_pow2_no_overflow(s as nat);
                lemma_u64_shl_is_mul(1, s);
                lemma_pow2_strictly_increases(s as nat, 63);
                assert(group * pow2(s as nat) <= u64::MAX) by (nonlinear_arith)
                    requires group < 128, pow2(s as nat) <= pow2(56), pow2(56) == 0x100000000000000;
                lemma_pow2_strictly_increases(56, 63);
                if s < 56 { lemma_pow2_strictly_increases(s as nat, 56); }
                lemma_u64_shl_is_mul(group, s);
                let v = self.value;
                assert(v < (1u64 << s) && s < 64 && group < 128 && s <= 56 ==> (v | (group << s)) as int == v as int + (group << s) as int) by (bit_vector);
                assert(value == sum);
                assert(sum < p * 128) by (nonlinear_arith)
                    requires self.value < p, group < 128, sum == self.value as nat + group as nat * p;
                lemma_pow2_adds(7 * c, 7);
                assert(sum < pow2(7 * (c + 1)));
                lemma_pow2_strictly_increases(7 * (c + 1), 64);
                vstd::arithmetic::div_mod::lemma_small_mod(sum, pow2(64));
            } else {
                assert(c == 9);
                assert(shift == 63);
                let v = self.value;
                assert(v < 0x8000000000000000 && group < 128 ==> (v | (group << 63u32)) as int == v as int + (group % 2) * 0x8000000000000000) by (bit_vector);
                assert(p == 0x8000000000000000);
                assert(sum == (v as nat + (group % 2) * p) + (group / 2) * pow2(64)) by (nonlinear_arith)
                    requires sum == v as nat + group as nat * p, pow2(64) == 2 * p;
                vstd::arithmetic::div_mod::lemma_mod_multiples_vanish((group / 2) as int, (v as nat + (group % 2) * p) as int, pow2(64) as int);
                vstd::arithmetic::div_mod::lemma_small_mod((v as nat + (group % 2) * p) as nat, pow2(64));
            }
        }
        *self = VarintDecoder { value, count: self.count + 1, bits: self.bits };
        if byte & 0x80 == 0 {
            assert(byte < 128) by (bit_vector) requires byte & 0x80 == 0;
            Some(value)
        } else {
            assert(byte >= 128) by (bit_vector) requires byte & 0x80 != 0;
            None
        }
    }
}

} // verus!

verus! {

/// A decoder of a `bits`-wide integer would have to shift a group to or
/// past the width: the first `max_len(bits)` bytes all carry the high
/// bit and another byte follows them.
pub open spec fn overlong(s: Seq<u8>, bits: nat) -> bool {
    &&& s.len() > max_len(bits)
    &&& forall|j: int| 0 <= j < max_len(bits) ==> s[j] >= 128
}

/// What reading a varint from the front of `s` gives: the number spelled
/// by the groups up to the first byte with a clear high bit, and the
/// number of bytes read; or the end of input first.
pub open spec fn decode_groups(s: Seq<u8>) -> Result<(nat, usize), DecodeError> {
    match first_stop(s) {
        Some(k) => Ok((groups_value(s.take(k + 1int)), (k + 1) as usize)),
        None => Err(DecodeError::UnexpectedEof),
    }
}

/// An integer type with a varint encoding.
pub trait Varint: Sized {
    /// Width of the type in bits.
    spec fn spec_bits() -> nat;

    /// What `size` returns.
    spec fn spec_size(&self) -> nat;

    /// The bytes that `serialize` writes.
    spec fn spec_encoding(&self) -> Seq<u8>;

    /// The value that the decoded groups `raw` give for this type.
    spec fn spec_from_raw(raw: nat) -> Self;

    /// The value depends on `raw` modulo `2^64` only, and the width is one
    /// that the decoder handles.
    proof fn lemma_from_raw_wraps(raw: nat)
        ensures
            Self::spec_from_raw(raw % pow2(64)) == Self::spec_from_raw(raw),
            Self::spec_bits() == 8 || Self::spec_bits() == 16 || Self::spec_bits() == 32
                || Self::spec_bits() == 64,
    ;

    /// Number of bytes that the value takes on the wire.
    fn size(&self) -> (r: u8)
        ensures
            r as nat == self.spec_size(),
    ;

    /// Appends the encoding of the value to `writer`.
    fn serialize(&self, writer: &mut Vec<u8>)
        ensures
            final(writer)@ == old(writer)@ + self.spec_encoding(),
    ;

    /// A fresh decoder for this type.
    fn decoder() -> (d: VarintDecoder)
        ensures
            d.bits() == Self::spec_bits(),
            d.count() == 0,
            d.acc() == 0,
    ;

    /// The value for the 64-bit accumulation of a decoder.
    fn from_raw(raw: u64) -> (r: Self)
        ensures
            r == Self::spec_from_raw(raw as nat),
    ;

    /// Reads one value from the front of `bytes`, with the number of bytes
    /// it took.
    fn deserialize(bytes: &[u8]) -> (r: Result<(Self, usize), DecodeError>)
        requires
            !overlong(bytes@, Self::spec_bits()),
        ensures
            match decode_groups(bytes@) {
                Ok((raw, n)) => r == Ok::<(Self, usize), DecodeError>((Self::spec_from_raw(raw), n)),
                Err(e) => r == Err::<(Self, usize), DecodeError>(e),
            },
    {
        let mut d = Self::decoder();
        let mut i: usize = 0;
        proof {
            Self::lemma_from_raw_wraps(0);
            lemma2_to64();
            assert(bytes@.take(0) =~= Seq::<u8>::empty());
        }
        while i < bytes.len()
            invariant
                i <= bytes.len(),
                d.count() == i,
                d.bits() == Self::spec_bits(),
                Self::spec_bits() == 8 || Self::spec_bits() == 16 || Self::spec_bits() == 32
                    || Self::spec_bits() == 64,
                !overlong(bytes@, Self::spec_bits()),
                forall|j: int| 0 <= j < i ==> bytes@[j] >= 128,
                d.acc() == groups_value(bytes@.take(i as int)) % pow2(64),
            decreases bytes.len() - i,
        {
            let ghost t = bytes@.take(i as int);
            proof {
                if 7 * i >= Self::spec_bits() {
                    assert(overlong(bytes@, Self::spec_bits()));
                }
                lemma_groups_bound(t);
                if i <= 9 {
                    if i < 9 {
                        lemma_pow2_strictly_increases(7 * i as nat, 63);
                    }
                    lemma_pow2_strictly_increases(63, 64);
                    vstd::arithmetic::div_mod::lemma_small_mod(groups_value(t), pow2(64));
                }
                assert(bytes@.take(i + 1) =~= t.push(bytes@[i as int]));
                lemma_groups_push(t, bytes@[i as int]);
            }
            let b = bytes[i];
            match d.feed(b) {
                Some(raw) => {
                    proof {
                        lemma_first_stop(bytes@);
                        let k = first_stop(bytes@);
                        if k is None {
                            assert(bytes@[i as int] >= 128);
                        } else {
                            let kk = k->0;
                            if kk < i {
                                assert(bytes@[kk as int] >= 128);
                            } else if kk > i {
                                assert(bytes@[i as int] >= 128);
                            }
                        }
                        Self::lemma_from_raw_wraps(groups_value(bytes@.take(i + 1)));
                        vstd::arithmetic::div_mod::lemma_mod_twice(groups_value(bytes@.take(i + 1)) as int, pow2(64) as int);
                    }
                    return Ok((Self::from_raw(raw), i + 1));
                },
                None => {},
            }
            i += 1;
        }
        proof {
            lemma_first_stop(bytes@);
            if let Some(k) = first_stop(bytes@) {
                assert(bytes@[k as int] >= 128);
            }
        }
        Err(DecodeError::UnexpectedEof)
    }
}

} // verus!
