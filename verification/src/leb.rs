//! The mathematical model of the base-128 (LEB128-style) varint format.
use vstd::prelude::*;
use vstd::arithmetic::power2::{pow2, lemma2_to64, lemma_pow2_adds, lemma_pow2_pos};

verus! {

/// Number of bytes in the base-128 encoding of `v`.
pub open spec fn varint_len(v: nat) -> nat
    decreases v,
{
    if v < 128 {
        1
    } else {
        1 + varint_len(v / 128)
    }
}

/// The base-128 encoding of `v`: seven bits per byte, least significant
/// group first, the high bit set on every byte but the last.
pub open spec fn encode(v: nat) -> Seq<u8>
    decreases v,
{
    if v < 128 {
        seq![v as u8]
    } else {
        seq![(v % 128 + 128) as u8] + encode(v / 128)
    }
}

/// The number that the low seven bits of the bytes of `s` spell,
/// least significant group first.
pub open spec fn groups_value(s: Seq<u8>) -> nat
    decreases s.len(),
{
    if s.len() == 0 {
        0
    } else {
        (s[0] % 128) as nat + 128 * groups_value(s.drop_first())
    }
}

/// Index of the first byte of `s` whose high bit is clear.
pub open spec fn first_stop(s: Seq<u8>) -> Option<nat>
    decreases s.len(),
{
    if s.len() == 0 {
        None
    } else if s[0] < 128 {
        Some(0)
    } else {
        match first_stop(s.drop_first()) {
            Some(k) => Some(k + 1),
            None => None,
        }
    }
}

/// Largest number of bytes a decoder of a `bits`-wide integer reads:
/// the shift of the next group would reach the width.
pub open spec fn max_len(bits: nat) -> nat {
    (bits + 6) / 7
}

pub proof fn lemma_varint_len_pos(v: nat)
    ensures
        varint_len(v) >= 1,
    decreases v,
{
    if v >= 128 {
        lemma_varint_len_pos(v / 128);
    }
}

/// `varint_len(v) <= k` exactly when `v < 2^(7k)`.
pub proof fn lemma_varint_len_le(v: nat, k: nat)
    requires
        k >= 1,
    ensures
        (varint_len(v) <= k) == (v < pow2(7 * k)),
    decreases k,
{
    lemma2_to64();
    lemma_varint_len_pos(v / 128);
    if k == 1 {
        assert(pow2(7 * k) == 128);
    } else {
        let p = pow2((7 * (k - 1)) as nat);
        lemma_pow2_adds((7 * (k - 1)) as nat, 7);
        assert(pow2(7 * k) == p * 128) by {
            assert((7 * (k - 1)) as nat + 7 == 7 * k);
        }
        lemma_pow2_pos((7 * (k - 1)) as nat);
        if v >= 128 {
            lemma_varint_len_le(v / 128, (k - 1) as nat);
            assert(pow2(7 * ((k - 1) as nat)) == p);
            assert((v / 128 < p) == (v < p * 128)) by (nonlinear_arith)
                requires
                    p > 0,
            ;
        } else {
            assert(p * 128 >= 128) by (nonlinear_arith)
                requires
                    p > 0,
            ;
        }
    }
}

/// The encoding has `varint_len(v)` bytes.
pub proof fn lemma_encode_len(v: nat)
    ensures
        encode(v).len() == varint_len(v),
    decreases v,
{
    if v >= 128 {
        lemma_encode_len(v / 128);
    }
}

} // verus!

verus! {

/// Appending one byte adds its low seven bits at the next group position.
pub proof fn lemma_groups_push(t: Seq<u8>, b: u8)
    ensures
        groups_value(t.push(b)) == groups_value(t) + (b % 128) as nat * pow2(7 * t.len()),
    decreases t.len(),
{
    lemma2_to64();
    if t.len() == 0 {
        assert(t.push(b).drop_first() =~= Seq::<u8>::empty());
        assert(groups_value(Seq::<u8>::empty()) == 0);
        assert(pow2(7 * t.len()) == 1);
        assert(t.push(b)[0] == b);
    } else {
        let rest = t.drop_first();
        assert(t.push(b).drop_first() =~= rest.push(b));
        assert(t.push(b)[0] == t[0]);
        lemma_groups_push(rest, b);
        let p = pow2(7 * rest.len());
        lemma_pow2_adds(7 * rest.len(), 7);
        assert(7 * rest.len() + 7 == 7 * t.len());
        let g = (b % 128) as nat;
        assert(128 * (groups_value(rest) + g * p) == 128 * groups_value(rest) + g * (p * 128))
            by (nonlinear_arith);
    }
}

/// The groups of `t` stay below `2^(7 |t|)`.
pub proof fn lemma_groups_bound(t: Seq<u8>)
    ensures
        groups_value(t) < pow2(7 * t.len()),
    decreases t.len(),
{
    lemma2_to64();
    if t.len() == 0 {
    } else {
        let rest = t.drop_first();
        lemma_groups_bound(rest);
        let p = pow2(7 * rest.len());
        lemma_pow2_adds(7 * rest.len(), 7);
        assert(7 * rest.len() + 7 == 7 * t.len());
        let g = (t[0] % 128) as nat;
        let r = groups_value(rest);
        assert(g + 128 * r < p * 128) by (nonlinear_arith)
            requires
                g < 128,
                r < p,
        ;
    }
}

/// `first_stop` finds the first byte whose high bit is clear.
pub proof fn lemma_first_stop(s: Seq<u8>)
    ensures
        first_stop(s) matches Some(k) ==> k < s.len() && s[k as int] < 128 && forall|j: int|
            0 <= j < k ==> s[j] >= 128,
        first_stop(s) is None ==> forall|j: int| 0 <= j < s.len() ==> s[j] >= 128,
    decreases s.len(),
{
    if s.len() > 0 && s[0] >= 128 {
        let rest = s.drop_first();
        lemma_first_stop(rest);
        assert forall|j: int| 1 <= j < s.len() implies s[j] == rest[j - 1] by {}
    }
}

/// The encoding of `v` followed by any bytes: its last byte is the first
/// that stops, and its groups spell `v`.
pub proof fn lemma_encode_then(v: nat, rest: Seq<u8>)
    ensures
        first_stop(encode(v) + rest) == Some((varint_len(v) - 1) as nat),
        (encode(v) + rest).take(varint_len(v) as int) == encode(v),
        groups_value(encode(v)) == v,
    decreases v,
{
    lemma_encode_len(v);
    let s = encode(v) + rest;
    assert(s.take(varint_len(v) as int) =~= encode(v));
    if v < 128 {
        assert(encode(v).drop_first() =~= Seq::<u8>::empty());
        assert(groups_value(Seq::<u8>::empty()) == 0);
        assert(encode(v)[0] == v as u8);
        assert((v as u8) % 128 == v);
    } else {
        let tail = encode(v / 128);
        lemma_encode_then(v / 128, rest);
        lemma_varint_len_pos(v / 128);
        assert(encode(v).drop_first() =~= tail);
        assert(s.drop_first() =~= tail + rest);
        assert(encode(v)[0] == (v % 128 + 128) as u8);
        assert(((v % 128 + 128) as u8) % 128 == v % 128);
        assert(v == v % 128 + 128 * (v / 128));
    }
}

} // verus!

verus! {

/// The zigzag map `0, -1, 1, -2, 2, ...` to `0, 1, 2, 3, 4, ...`.
pub open spec fn zigzag(x: int) -> nat {
    if x >= 0 {
        (2 * x) as nat
    } else {
        (-2 * x - 1) as nat
    }
}

/// The two's complement bits of `x` modulo `m`, read as an unsigned number.
pub open spec fn unsigned_of(x: int, m: nat) -> nat {
    if x >= 0 {
        x as nat
    } else {
        (x + m) as nat
    }
}

/// The number `u < m` read as a two's complement number modulo `m`.
pub open spec fn signed_of(u: nat, m: nat) -> int {
    if 2 * u < m {
        u as int
    } else {
        u - m
    }
}

/// The inverse of the zigzag map, applied to a signed reading `e`.
pub open spec fn unzigzag(e: int) -> int {
    if e % 2 == 0 {
        e / 2
    } else {
        (-e - 1) / 2
    }
}

} // verus!
