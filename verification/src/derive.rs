//! The shape checks of the derive and the constant that wraps the code it
//! generates.
use vstd::prelude::*;
use vstd::string::StringExecFns;

verus! {

/// Which trait impls the derive writes.
#[derive(Debug, Clone, Copy, PartialEq, Eq, Structural)]
pub enum DeriveKind {
    Serialize,
    Deserialize,
    State,
}

/// The fields of a struct or an enum variant.
#[derive(Debug, Clone, Copy, PartialEq, Eq, Structural)]
pub enum FieldsShape {
    /// `{ a: A, ... }`
    Named,
    /// `(A, ...)`
    Unnamed,
    /// No fields at all.
    Unit,
}

/// An enum variant as the shape check sees it.
#[derive(Debug, Clone, Copy, PartialEq, Eq, Structural)]
pub struct VariantShape {
    /// Whether the variant has an explicit discriminant `= n`.
    pub has_discriminant: bool,
    pub fields: FieldsShape,
}

/// The item that the derive is applied to.
pub enum DataShape {
    Enum { variants: Vec<VariantShape> },
    Struct { fields: FieldsShape },
    Union,
}

/// Why the derive refuses an item.
#[derive(Debug, Clone, Copy, PartialEq, Eq, Structural)]
pub enum ShapeError {
    ZeroVariants,
    Discriminant,
    UnitStruct,
    Union,
}

/// The problem with one variant, if any: a discriminant first, then unit
/// fields.
pub open spec fn variant_error(v: VariantShape) -> Option<ShapeError> {
    if v.has_discriminant {
        Some(ShapeError::Discriminant)
    } else if v.fields == FieldsShape::Unit {
        Some(ShapeError::UnitStruct)
    } else {
        None
    }
}

/// The error of the first variant that has one.
pub open spec fn first_variant_error(vs: Seq<VariantShape>) -> Option<ShapeError>
    decreases vs.len(),
{
    if vs.len() == 0 {
        None
    } else if variant_error(vs[0]) is Some {
        variant_error(vs[0])
    } else {
        first_variant_error(vs.drop_first())
    }
}

proof fn lemma_first_variant_error(vs: Seq<VariantShape>, i: int)
    requires
        0 <= i <= vs.len(),
        forall|j: int| 0 <= j < i ==> variant_error(#[trigger] vs[j]) is None,
    ensures
        first_variant_error(vs) == first_variant_error(vs.subrange(i, vs.len() as int)),
    decreases i,
{
    if i > 0 {
        let rest = vs.drop_first();
        assert forall|j: int| 0 <= j < i - 1 implies variant_error(#[trigger] rest[j]) is None by {
            assert(rest[j] == vs[j + 1]);
        }
        lemma_first_variant_error(rest, i - 1);
        assert(rest.subrange(i - 1, rest.len() as int) =~= vs.subrange(i, vs.len() as int));
        assert(variant_error(vs[0]) is None);
    } else {
        assert(vs.subrange(0, vs.len() as int) =~= vs);
    }
}

/// What the shape check of an item gives: for an enum, no variants is an
/// error, else the error of the first variant that has one (the variants
/// are read in order and reading stops there); a unit struct and a union
/// are errors.
pub open spec fn shape_check_spec(data: DataShape) -> Result<(), ShapeError> {
    match data {
        DataShape::Enum { variants } => if variants.len() == 0 {
            Err(ShapeError::ZeroVariants)
        } else {
            match first_variant_error(variants@) {
                Some(e) => Err(e),
                None => Ok(()),
            }
        },
        DataShape::Struct { fields } => if fields == FieldsShape::Unit {
            Err(ShapeError::UnitStruct)
        } else {
            Ok(())
        },
        DataShape::Union => Err(ShapeError::Union),
    }
}

/// Checks the fields of a struct or variant: unit fields are refused.
pub fn check_fields(fields: &FieldsShape) -> (r: Result<(), ShapeError>)
    ensures
        r == (if *fields == FieldsShape::Unit { Err(ShapeError::UnitStruct) } else { Ok::<(), ShapeError>(()) }),
{
    match fields {
        FieldsShape::Unit => Err(ShapeError::UnitStruct),
        _ => Ok(()),
    }
}

/// Checks one variant: a discriminant is refused, then unit fields.
pub fn check_variant(v: &VariantShape) -> (r: Result<(), ShapeError>)
    ensures
        r == (match variant_error(*v) { Some(e) => Err(e), None => Ok::<(), ShapeError>(()) }),
{
    if v.has_discriminant {
        return Err(ShapeError::Discriminant);
    }
    check_fields(&v.fields)
}

/// Checks the shape of the item the derive is applied to.
pub fn check_shape(data: &DataShape) -> (r: Result<(), ShapeError>)
    ensures
        r == shape_check_spec(*data),
{
    match data {
        DataShape::Enum { variants } => {
            if variants.len() == 0 {
                return Err(ShapeError::ZeroVariants);
            }
            let mut i: usize = 0;
            while i < variants.len()
                invariant
                    i <= variants.len(),
                    variants.len() > 0,
                    *data == (DataShape::Enum { variants: *variants }),
                    forall|j: int| 0 <= j < i ==> variant_error(#[trigger] variants@[j]) is None,
                decreases variants.len() - i,
            {
                match check_variant(&variants[i]) {
                    Err(e) => {
                        proof {
                            lemma_first_variant_error(variants@, i as int);
                            let sub = variants@.subrange(i as int, variants@.len() as int);
                            assert(sub[0] == variants@[i as int]);
                            assert(sub.len() > 0);
                            assert(first_variant_error(sub) == variant_error(sub[0]));
                        }
                        return Err(e);
                    },
                    Ok(()) => {},
                }
                i += 1;
            }
            proof {
                lemma_first_variant_error(variants@, i as int);
            }
            Ok(())
        },
        DataShape::Struct { fields } => check_fields(fields),
        DataShape::Union => Err(ShapeError::Union),
    }
}

} // verus!

verus! {

impl ShapeError {
    /// The text of the compile error.
    pub fn message(&self) -> (r: &'static str)
        ensures
            r@ == shape_message(*self),
    {
        match self {
            ShapeError::ZeroVariants => "cannot derive for enums with zero variants",
            ShapeError::Discriminant => "cannot derive for enums with discriminants",
            ShapeError::UnitStruct => "cannot derive for unit structs",
            ShapeError::Union => "cannot derive for unions yet",
        }
    }
}

/// The text of the compile error for `e`.
pub open spec fn shape_message(e: ShapeError) -> Seq<char> {
    match e {
        ShapeError::ZeroVariants => "cannot derive for enums with zero variants"@,
        ShapeError::Discriminant => "cannot derive for enums with discriminants"@,
        ShapeError::UnitStruct => "cannot derive for unit structs"@,
        ShapeError::Union => "cannot derive for unions yet"@,
    }
}

/// The word for `kind` in the name of the wrapping constant.
pub open spec fn kind_label_spec(kind: DeriveKind) -> Seq<char> {
    match kind {
        DeriveKind::Serialize => "SERIALIZE"@,
        DeriveKind::Deserialize => "DESERIALIZE"@,
        DeriveKind::State => "STATE"@,
    }
}

/// The word for `kind` in the name of the wrapping constant.
pub fn kind_label(kind: DeriveKind) -> (r: &'static str)
    ensures
        r@ == kind_label_spec(kind),
{
    match kind {
        DeriveKind::Serialize => "SERIALIZE",
        DeriveKind::Deserialize => "DESERIALIZE",
        DeriveKind::State => "STATE",
    }
}

/// What `str::to_uppercase` gives for `s`.
pub uninterp spec fn uppercase(s: Seq<char>) -> Seq<char>;

/// `str::to_uppercase` of std: the Unicode upper case of `s`, named and
/// not spelled out.
#[verifier::external_body]
fn to_uppercase(s: &str) -> (r: String)
    ensures
        r@ == uppercase(s@),
{
    s.to_uppercase()
}

/// The name of the constant that wraps the impls for the item whose name,
/// in snake case, is `snake_name`.
pub open spec fn const_name_spec(kind: DeriveKind, snake_name: Seq<char>) -> Seq<char> {
    "_IMPL_"@ + kind_label_spec(kind) + "_FOR_"@ + uppercase(snake_name)
}

/// The name of the constant that wraps the impls.
pub fn const_name(kind: DeriveKind, snake_name: &str) -> (r: String)
    ensures
        r@ == const_name_spec(kind, snake_name@),
{
    let mut r = String::from_str("_IMPL_");
    r.append(kind_label(kind));
    r.append("_FOR_");
    let upper = to_uppercase(snake_name);
    r.append(upper.as_str());
    r
}

/// The imports that the generated impls use.
pub open spec fn const_prelude() -> Seq<char> {
    "extern crate steit; use std::io::{self, Read}; use steit::{de::Deserialize, iowrap, runtime::Runtime, ser::Serialize, varint}; "@
}

/// The generated impls `tokens`, wrapped in an unnamed-scope constant
/// that brings the runtime's items into scope.
pub open spec fn wrap_in_const_spec(kind: DeriveKind, snake_name: Seq<char>, tokens: Seq<char>) -> Seq<char> {
    "const "@ + const_name_spec(kind, snake_name) + ": () = { "@ + const_prelude() + tokens + " };"@
}

/// Wraps the generated impls in a constant.
pub fn wrap_in_const(kind: DeriveKind, snake_name: &str, tokens: &str) -> (r: String)
    ensures
        r@ == wrap_in_const_spec(kind, snake_name@, tokens@),
{
    let name = const_name(kind, snake_name);
    let mut r = String::from_str("const ");
    r.append(name.as_str());
    r.append(": () = { ");
    // The runtime's `varint` module is imported whole, so that its
    // `serialize` and `deserialize` are not confused with the traits'.
    r.append("extern crate steit; use std::io::{self, Read}; use steit::{de::Deserialize, iowrap, runtime::Runtime, ser::Serialize, varint}; ");
    r.append(tokens);
    r.append(" };");
    assert(r@ =~= wrap_in_const_spec(kind, snake_name@, tokens@));
    r
}

} // verus!

verus! {

/// The parts of an impl header for the item: its name and the token texts
/// of its generics split for an impl.
pub struct ImplHeader {
    pub name: String,
    pub impl_generics: String,
    pub ty_generics: String,
    pub where_clause: String,
}

/// A struct, or a variant of an enum, with its impls generated: the
/// qualifier that follows the item's name in a pattern (`::Variant`, or
/// nothing for a struct), how its runtime field is reached if it has one,
/// and the code of its impls.
pub struct StructCode {
    pub qual: String,
    pub runtime: Option<String>,
    pub code: String,
}

/// The start of the inherent impl that gives access to the runtime.
pub open spec fn runtime_head(h: ImplHeader) -> Seq<char> {
    "impl"@ + h.impl_generics@ + " "@ + h.name@ + h.ty_generics@ + " "@ + h.where_clause@
        + " { fn runtime(&self) -> &Runtime { "@
}

/// The texts of `parts`, one after the other.
pub open spec fn concat(parts: Seq<Seq<char>>) -> Seq<char>
    decreases parts.len(),
{
    if parts.len() == 0 {
        Seq::empty()
    } else {
        concat(parts.drop_last()) + parts.last()
    }
}

/// The match arm that takes the runtime out of one variant.
pub open spec fn runtime_arm(name: Seq<char>, v: StructCode) -> Seq<char> {
    name + v.qual@ + " { "@ + v.runtime->0@ + ": ref runtime, .. } => runtime, "@
}

/// What the derive writes for an enum: for a state, an impl whose
/// `runtime` matches each variant, then the code of each variant; for the
/// other kinds, the code of each variant.
pub open spec fn enum_output_spec(kind: DeriveKind, h: ImplHeader, variants: Seq<StructCode>) -> Seq<char> {
    let codes = concat(variants.map_values(|v: StructCode| v.code@));
    if kind == DeriveKind::State {
        runtime_head(h) + "match self { "@ + concat(variants.map_values(|v: StructCode| runtime_arm(h.name@, v)))
            + "} } } "@ + codes
    } else {
        codes
    }
}

/// What the derive writes for a struct: for a state, an impl whose
/// `runtime` borrows the runtime field, then the code of the struct; for
/// the other kinds, the code of the struct.
pub open spec fn struct_output_spec(kind: DeriveKind, h: ImplHeader, s: StructCode) -> Seq<char> {
    if kind == DeriveKind::State {
        runtime_head(h) + "&self."@ + s.runtime->0@ + " } } "@ + s.code@
    } else {
        s.code@
    }
}

fn push_runtime_head(out: &mut String, h: &ImplHeader)
    ensures
        final(out)@ == old(out)@ + runtime_head(*h),
{
    let ghost start = out@;
    out.append("impl");
    out.append(h.impl_generics.as_str());
    out.append(" ");
    out.append(h.name.as_str());
    out.append(h.ty_generics.as_str());
    out.append(" ");
    out.append(h.where_clause.as_str());
    out.append(" { fn runtime(&self) -> &Runtime { ");
    assert(out@ =~= start + runtime_head(*h));
}

/// The code for an enum whose variants have been generated.
pub fn enum_output(kind: DeriveKind, h: &ImplHeader, variants: &Vec<StructCode>) -> (r: String)
    requires
        kind == DeriveKind::State ==> forall|i: int| 0 <= i < variants.len() ==> (#[trigger] variants@[i]).runtime is Some,
    ensures
        r@ == enum_output_spec(kind, *h, variants@),
{
    let ghost codes = variants@.map_values(|v: StructCode| v.code@);
    let ghost arms = variants@.map_values(|v: StructCode| runtime_arm(h.name@, v));
    let mut out = String::new();
    if kind == DeriveKind::State {
        push_runtime_head(&mut out, h);
        out.append("match self { ");
        let ghost before = out@;
        let mut i: usize = 0;
        while i < variants.len()
            invariant
                i <= variants.len(),
                forall|j: int| 0 <= j < variants.len() ==> (#[trigger] variants@[j]).runtime is Some,
                arms == variants@.map_values(|v: StructCode| runtime_arm(h.name@, v)),
                out@ == before + concat(arms.take(i as int)),
            decreases variants.len() - i,
        {
            let v = &variants[i];
            let runtime = match &v.runtime {
                Some(runtime) => runtime,
                None => {
                    assert(variants@[i as int].runtime is Some);
                    return String::new();
                },
            };
            out.append(h.name.as_str());
            out.append(v.qual.as_str());
            out.append(" { ");
            out.append(runtime.as_str());
            out.append(": ref runtime, .. } => runtime, ");
            assert(arms.take(i + 1).drop_last() =~= arms.take(i as int));
            assert(out@ =~= before + concat(arms.take(i + 1)));
            i += 1;
        }
        assert(arms.take(variants.len() as int) =~= arms);
        out.append("} } } ");
    }
    let ghost mid = out@;
    let mut i: usize = 0;
    while i < variants.len()
        invariant
            i <= variants.len(),
            codes == variants@.map_values(|v: StructCode| v.code@),
            out@ == mid + concat(codes.take(i as int)),
        decreases variants.len() - i,
    {
        out.append(variants[i].code.as_str());
        assert(codes.take(i + 1).drop_last() =~= codes.take(i as int));
        assert(out@ =~= mid + concat(codes.take(i + 1)));
        i += 1;
    }
    assert(codes.take(variants.len() as int) =~= codes);
    assert(out@ =~= enum_output_spec(kind, *h, variants@));
    out
}

/// The code for a struct whose impls have been generated.
pub fn struct_output(kind: DeriveKind, h: &ImplHeader, s: &StructCode) -> (r: String)
    requires
        kind == DeriveKind::State ==> s.runtime is Some,
    ensures
        r@ == struct_output_spec(kind, *h, *s),
{
    let mut out = String::new();
    if kind == DeriveKind::State {
        push_runtime_head(&mut out, h);
        out.append("&self.");
        match &s.runtime {
            Some(runtime) => out.append(runtime.as_str()),
            None => {},
        }
        out.append(" } } ");
    }
    out.append(s.code.as_str());
    assert(out@ =~= struct_output_spec(kind, *h, *s));
    out
}

} // verus!

verus! {

/// What the derive emits for an item.
pub enum DeriveOutput {
    /// The recorded errors, as compile errors, and nothing else.
    Errors,
    /// The generated impls wrapped in their constant.
    Code(String),
}

/// What the derive emits: once any error was recorded, the errors only;
/// otherwise the generated impls, or nothing when generation gave none,
/// wrapped in their constant.
pub fn derive_output(kind: DeriveKind, snake_name: &str, error_count: usize, output: &Option<String>) -> (r: DeriveOutput)
    ensures
        error_count > 0 ==> r is Errors,
        error_count == 0 ==> (r matches DeriveOutput::Code(code) && code@ == wrap_in_const_spec(
            kind,
            snake_name@,
            match output {
                Some(o) => o@,
                None => Seq::<char>::empty(),
            },
        )),
{
    if error_count > 0 {
        return DeriveOutput::Errors;
    }
    let code = match output {
        Some(o) => wrap_in_const(kind, snake_name, o.as_str()),
        None => {
            let empty = String::new();
            wrap_in_const(kind, snake_name, empty.as_str())
        },
    };
    DeriveOutput::Code(code)
}

} // verus!
