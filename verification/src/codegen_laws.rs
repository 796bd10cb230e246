//! What the generated code text says, stated over its parts: numbers read
//! back from their digits, and the sizer and serializer of a field made of
//! the same parts.
use vstd::prelude::*;
use crate::text::{decimal, digit_char, digits_value, all_digits, is_digit};
use crate::field::{
    access_text, init_value_text, key_text, wire_type, sizer_text, serializer_text, FieldKindView, IndexedFieldView,
};
use crate::derive::{
    concat, enum_output_spec, runtime_arm, runtime_head, struct_output_spec, DeriveKind, ImplHeader, StructCode,
};

verus! {

/// `d` is the decimal notation of `n`: at least one digit, only digits,
/// no leading zero, and the digits read back as `n`.
pub open spec fn is_decimal_of(d: Seq<char>, n: nat) -> bool {
    &&& d.len() >= 1
    &&& all_digits(d)
    &&& (d.len() == 1 || d[0] != '0')
    &&& digits_value(d) == n
}

/// The decimal notation of `n` reads back as `n`.
pub proof fn law_decimal(n: nat)
    ensures
        is_decimal_of(decimal(n), n),
    decreases n,
{
    let c = digit_char(n % 10);
    assert(c as nat == n % 10 + 48);
    assert(is_digit(c));
    if n < 10 {
        let d = decimal(n);
        assert(d.drop_last() =~= Seq::<char>::empty());
        assert(digits_value(Seq::<char>::empty()) == 0);
    } else {
        law_decimal(n / 10);
        let p = decimal(n / 10);
        let d = decimal(n);
        assert(d == p.push(c));
        assert(d.drop_last() =~= p);
        assert forall|i: int| 0 <= i < d.len() implies is_digit(#[trigger] d[i]) by {
            if i < p.len() {
                assert(d[i] == p[i]);
            }
        }
        assert(d[0] == p[0]);
        if p.len() == 1 {
            assert(p.drop_last() =~= Seq::<char>::empty());
            assert(digits_value(Seq::<char>::empty()) == 0);
            assert(p.last() == p[0]);
            assert(digits_value(p) == (p[0] as nat - 48) as nat);
        }
    }
}

/// A field is reached by its name, or by its position written in decimal.
pub proof fn law_access(name: Option<Seq<char>>, index: nat)
    ensures
        name matches Some(n) ==> access_text(name, index) == n,
        name is None ==> is_decimal_of(access_text(name, index), index),
{
    law_decimal(index);
}

/// The initial value of a field: its default text as given, the type's
/// default when none was given, and for a nested state a call that
/// derives its path with the full tag.
pub proof fn law_init_value(f: IndexedFieldView)
    ensures
        f.kind matches FieldKindView::Primitive { default: Some(d) } ==> init_value_text(f) == d,
        f.kind matches FieldKindView::Primitive { default: None } ==> init_value_text(f) == "Default::default()"@,
        f.kind is State ==> exists|d: Seq<char>|
            #![trigger is_decimal_of(d, f.tag as nat)]
            is_decimal_of(d, f.tag as nat) && init_value_text(f) == "<"@ + f.ty + ">::new(path.derive("@ + d
                + "u16))"@,
{
    law_decimal(f.tag as nat);
}

/// The key of a field shifts its full tag over its wire type, 0 for a
/// primitive and 2 for a nested state.
pub proof fn law_key(f: IndexedFieldView)
    ensures
        wire_type(f.kind) == (if f.kind is State { 2nat } else { 0nat }),
        exists|d: Seq<char>, w: Seq<char>|
            #![trigger is_decimal_of(d, f.tag as nat), is_decimal_of(w, wire_type(f.kind))]
            is_decimal_of(d, f.tag as nat) && is_decimal_of(w, wire_type(f.kind))
                && key_text(f) == "("@ + d + "u32 << 3 | "@ + w + "u32)"@,
{
    law_decimal(f.tag as nat);
    law_decimal(wire_type(f.kind));
}

/// The sizer and the serializer of a field are made of the same parts:
/// the key, then for a nested state (named or positional) its length
/// prefix `self.<access>.size()`, then the value.
pub proof fn law_sizer_serializer(f: IndexedFieldView)
    ensures
        ({
            let a = access_text(f.name, f.index);
            let k = key_text(f);
            &&& sizer_text(f) == "size += "@ + k + ".size(); "@ + (if f.kind is State {
                "size += self."@ + a + ".size().size(); "@
            } else {
                Seq::<char>::empty()
            }) + "size += self."@ + a + ".size();"@
            &&& serializer_text(f) == k + ".serialize(writer)?; "@ + (if f.kind is State {
                "self."@ + a + ".size().serialize(writer)?; "@
            } else {
                Seq::<char>::empty()
            }) + "self."@ + a + ".serialize(writer)?;"@
        }),
{
}

/// The accessor impl of a state starts with the item's impl header.
pub proof fn law_runtime_head(h: ImplHeader)
    ensures
        runtime_head(h) == "impl"@ + h.impl_generics@ + " "@ + h.name@ + h.ty_generics@ + " "@ + h.where_clause@
            + " { fn runtime(&self) -> &Runtime { "@,
{
}

/// Only a state derive adds a runtime accessor to a struct; the other
/// kinds give exactly the struct's generated code.
pub proof fn law_struct_output(kind: DeriveKind, h: ImplHeader, s: StructCode)
    ensures
        kind != DeriveKind::State ==> struct_output_spec(kind, h, s) == s.code@,
        kind == DeriveKind::State ==> struct_output_spec(kind, h, s) == runtime_head(h) + "&self."@
            + s.runtime->0@ + " } } "@ + s.code@,
{
}

/// Only a state derive adds a runtime accessor, matching every variant in
/// order, to an enum; the other kinds give exactly the variants' generated
/// code in order.
pub proof fn law_enum_output(kind: DeriveKind, h: ImplHeader, vs: Seq<StructCode>)
    ensures
        ({
            let codes = concat(vs.map_values(|v: StructCode| v.code@));
            let arms = concat(vs.map_values(|v: StructCode| runtime_arm(h.name@, v)));
            &&& kind != DeriveKind::State ==> enum_output_spec(kind, h, vs) == codes
            &&& kind == DeriveKind::State ==> enum_output_spec(kind, h, vs) == runtime_head(h) + "match self { "@
                + arms + "} } } "@ + codes
        }),
{
}

/// A match arm takes the runtime field out of its variant, reached as
/// `<name><qual> { <runtime>: ref runtime, .. }`.
pub proof fn law_runtime_arm(name: Seq<char>, v: StructCode)
    ensures
        runtime_arm(name, v) == name + v.qual@ + " { "@ + v.runtime->0@ + ": ref runtime, .. } => runtime, "@,
{
}

/// Text pieces are joined in order.
pub proof fn law_concat(parts: Seq<Seq<char>>, p: Seq<char>)
    ensures
        concat(Seq::<Seq<char>>::empty()) == Seq::<char>::empty(),
        concat(parts.push(p)) == concat(parts) + p,
{
    assert(parts.push(p).drop_last() =~= parts);
}

} // verus!

verus! {

/// Removing spaces keeps every other character, in order.
pub proof fn law_without_spaces(s: Seq<char>)
    ensures
        crate::text::without_spaces(s) == s.filter(|c: char| c != ' '),
    decreases s.len(),
{
    reveal(Seq::filter);
    if s.len() > 0 {
        law_without_spaces(s.drop_last());
    }
}

/// Parsing the decimal notation of a number gives it back when it fits a
/// `u16`, and nothing when it does not; a leading `+` changes nothing.
pub proof fn law_parse_u16_decimal(n: nat)
    ensures
        n <= 0xffff ==> crate::text::parse_u16_spec(decimal(n)) == Some(n as u16),
        n > 0xffff ==> crate::text::parse_u16_spec(decimal(n)) is None,
        crate::text::parse_u16_spec(seq!['+'] + decimal(n)) == crate::text::parse_u16_spec(decimal(n)),
{
    law_decimal(n);
    let d = decimal(n);
    assert(d[0] != '+');
    assert((seq!['+'] + d).drop_first() =~= d);
}

/// A parsed `u16` is spelled by the digits after an optional `+`.
pub proof fn law_parse_u16(s: Seq<char>)
    ensures
        crate::text::parse_u16_spec(s) matches Some(v) ==> {
            let d = crate::text::unsigned_digits(s);
            &&& d.len() >= 1
            &&& all_digits(d)
            &&& digits_value(d) == v
        },
{
}

/// Reading a varint from `s` stops at the first byte whose high bit is
/// clear, and gives the groups up to it; without such a byte it gives
/// the end of input.
pub proof fn law_decode_groups(s: Seq<u8>)
    requires
        s.len() <= usize::MAX,
    ensures
        crate::varint::decode_groups(s) matches Ok((v, n)) ==> {
            &&& 1 <= n <= s.len()
            &&& s[n - 1] < 128
            &&& forall|i: int| 0 <= i < n - 1 ==> s[i] >= 128
            &&& v == crate::leb::groups_value(s.take(n as int))
        },
        crate::varint::decode_groups(s) is Err ==> forall|i: int| 0 <= i < s.len() ==> s[i] >= 128,
{
    crate::leb::lemma_first_stop(s);
    if let Some(k) = crate::leb::first_stop(s) {
        assert(((k + 1) as usize) as nat == k + 1);
    }
}

} // verus!

verus! {

/// Whether a variant can be derived for: no discriminant and some fields.
pub open spec fn variant_ok(v: crate::derive::VariantShape) -> bool {
    !v.has_discriminant && v.fields != crate::derive::FieldsShape::Unit
}

/// The error that a variant that cannot be derived for gives: a
/// discriminant first, unit fields otherwise.
pub open spec fn variant_refusal(v: crate::derive::VariantShape) -> crate::derive::ShapeError {
    if v.has_discriminant {
        crate::derive::ShapeError::Discriminant
    } else {
        crate::derive::ShapeError::UnitStruct
    }
}

proof fn lemma_first_variant_error(vs: Seq<crate::derive::VariantShape>)
    ensures
        crate::derive::first_variant_error(vs) is None <==> forall|i: int| 0 <= i < vs.len() ==> variant_ok(#[trigger] vs[i]),
        crate::derive::first_variant_error(vs) matches Some(e) ==> exists|i: int|
            0 <= i < vs.len() && !variant_ok(#[trigger] vs[i]) && e == variant_refusal(vs[i]) && forall|j: int|
                0 <= j < i ==> variant_ok(#[trigger] vs[j]),
    decreases vs.len(),
{
    if vs.len() > 0 {
        let rest = vs.drop_first();
        lemma_first_variant_error(rest);
        assert forall|i: int| 0 <= i < rest.len() implies rest[i] == vs[i + 1] by {}
        if variant_ok(vs[0]) {
            if let Some(e) = crate::derive::first_variant_error(vs) {
                let k = choose|k: int|
                    0 <= k < rest.len() && !variant_ok(#[trigger] rest[k]) && e == variant_refusal(rest[k]) && forall|j: int|
                        0 <= j < k ==> variant_ok(#[trigger] rest[j]);
                assert(vs[k + 1] == rest[k]);
                assert forall|j: int| 0 <= j < k + 1 implies variant_ok(#[trigger] vs[j]) by {
                    if j > 0 {
                        assert(vs[j] == rest[j - 1]);
                    }
                }
            } else {
                assert forall|i: int| 0 <= i < vs.len() implies variant_ok(#[trigger] vs[i]) by {
                    if i > 0 {
                        assert(vs[i] == rest[i - 1]);
                    }
                }
            }
        } else {
            assert(!variant_ok(vs[0]));
        }
    }
}

/// The shape check refuses a union, a unit struct, an enum without
/// variants, and otherwise an enum exactly when some variant has a
/// discriminant or unit fields, with the error of the first such variant.
pub proof fn law_shape(data: crate::derive::DataShape)
    ensures
        data is Union ==> crate::derive::shape_check_spec(data) == Err::<(), crate::derive::ShapeError>(
            crate::derive::ShapeError::Union,
        ),
        match data {
            crate::derive::DataShape::Struct { fields } => crate::derive::shape_check_spec(data) == if fields
                == crate::derive::FieldsShape::Unit {
                Err::<(), crate::derive::ShapeError>(crate::derive::ShapeError::UnitStruct)
            } else {
                Ok(())
            },
            crate::derive::DataShape::Enum { variants } => {
                let vs = variants@;
                &&& vs.len() == 0 ==> crate::derive::shape_check_spec(data) == Err::<(), crate::derive::ShapeError>(
                    crate::derive::ShapeError::ZeroVariants,
                )
                &&& vs.len() > 0 ==> (crate::derive::shape_check_spec(data) is Ok <==> forall|i: int|
                    0 <= i < vs.len() ==> variant_ok(#[trigger] vs[i]))
                &&& vs.len() > 0 ==> match crate::derive::shape_check_spec(data) {
                    Err(e) => exists|i: int|
                        0 <= i < vs.len() && !variant_ok(#[trigger] vs[i]) && e == variant_refusal(vs[i])
                            && forall|j: int| 0 <= j < i ==> variant_ok(#[trigger] vs[j]),
                    Ok(_) => true,
                }
            },
            _ => true,
        },
{
    if let crate::derive::DataShape::Enum { variants } = data {
        lemma_first_variant_error(variants@);
    }
}

/// The wrapping constant is named after the kind in capitals and the
/// item's snake-case name upper-cased, and holds the runtime's imports
/// then the generated impls.
pub proof fn law_wrap_in_const(kind: DeriveKind, snake_name: Seq<char>, tokens: Seq<char>)
    ensures
        crate::derive::wrap_in_const_spec(kind, snake_name, tokens) == "const "@ + "_IMPL_"@ + (match kind {
            DeriveKind::Serialize => "SERIALIZE"@,
            DeriveKind::Deserialize => "DESERIALIZE"@,
            DeriveKind::State => "STATE"@,
        }) + "_FOR_"@ + crate::derive::uppercase(snake_name) + ": () = { "@
            + "extern crate steit; use std::io::{self, Read}; use steit::{de::Deserialize, iowrap, runtime::Runtime, ser::Serialize, varint}; "@
            + tokens + " };"@,
{
    assert(crate::derive::wrap_in_const_spec(kind, snake_name, tokens) =~= "const "@ + "_IMPL_"@ + (match kind {
        DeriveKind::Serialize => "SERIALIZE"@,
        DeriveKind::Deserialize => "DESERIALIZE"@,
        DeriveKind::State => "STATE"@,
    }) + "_FOR_"@ + crate::derive::uppercase(snake_name) + ": () = { "@
        + "extern crate steit; use std::io::{self, Read}; use steit::{de::Deserialize, iowrap, runtime::Runtime, ser::Serialize, varint}; "@
        + tokens + " };"@);
}

} // verus!
