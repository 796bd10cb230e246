use vector_state::derive::{
    check_fields, check_shape, check_variant, const_name, kind_label, wrap_in_const, DataShape,
    DeriveKind, FieldsShape, ShapeError, VariantShape,
};

fn variant(has_discriminant: bool, fields: FieldsShape) -> VariantShape {
    VariantShape { has_discriminant, fields }
}

#[test]
fn kinds_compare() {
    assert!(DeriveKind::State == DeriveKind::State);
    assert!(DeriveKind::State != DeriveKind::Serialize);
    assert_eq!(kind_label(DeriveKind::Serialize), "SERIALIZE");
    assert_eq!(kind_label(DeriveKind::Deserialize), "DESERIALIZE");
    assert_eq!(kind_label(DeriveKind::State), "STATE");
}

#[test]
fn struct_shapes() {
    assert_eq!(check_shape(&DataShape::Struct { fields: FieldsShape::Named }), Ok(()));
    assert_eq!(check_shape(&DataShape::Struct { fields: FieldsShape::Unnamed }), Ok(()));
    assert_eq!(check_shape(&DataShape::Struct { fields: FieldsShape::Unit }), Err(ShapeError::UnitStruct));
    assert_eq!(check_fields(&FieldsShape::Unit), Err(ShapeError::UnitStruct));
    assert_eq!(ShapeError::UnitStruct.message(), "cannot derive for unit structs");
}

#[test]
fn union_shape() {
    assert_eq!(check_shape(&DataShape::Union), Err(ShapeError::Union));
    assert_eq!(ShapeError::Union.message(), "cannot derive for unions yet");
}

#[test]
fn enum_shapes() {
    assert_eq!(check_shape(&DataShape::Enum { variants: vec![] }), Err(ShapeError::ZeroVariants));
    assert_eq!(ShapeError::ZeroVariants.message(), "cannot derive for enums with zero variants");
    let ok = vec![variant(false, FieldsShape::Unnamed), variant(false, FieldsShape::Named)];
    assert_eq!(check_shape(&DataShape::Enum { variants: ok }), Ok(()));
    let first_wins = vec![
        variant(false, FieldsShape::Named),
        variant(false, FieldsShape::Unit),
        variant(true, FieldsShape::Named),
    ];
    assert_eq!(check_shape(&DataShape::Enum { variants: first_wins }), Err(ShapeError::UnitStruct));
    let both = vec![variant(true, FieldsShape::Unit)];
    assert_eq!(check_shape(&DataShape::Enum { variants: both }), Err(ShapeError::Discriminant));
    assert_eq!(check_variant(&variant(true, FieldsShape::Unit)), Err(ShapeError::Discriminant));
    assert_eq!(ShapeError::Discriminant.message(), "cannot derive for enums with discriminants");
}

#[test]
fn wrapping_constant() {
    assert_eq!(const_name(DeriveKind::State, "pos_2d"), "_IMPL_STATE_FOR_POS_2D");
    assert_eq!(const_name(DeriveKind::Serialize, "point"), "_IMPL_SERIALIZE_FOR_POINT");
    let wrapped = wrap_in_const(DeriveKind::Deserialize, "segment", "impl X {}");
    assert_eq!(
        wrapped,
        "const _IMPL_DESERIALIZE_FOR_SEGMENT: () = { extern crate steit; use std::io::{self, Read}; \
         use steit::{de::Deserialize, iowrap, runtime::Runtime, ser::Serialize, varint}; impl X {} };"
    );
}

use vector_state::derive::{enum_output, struct_output, ImplHeader, StructCode};

fn header(name: &str) -> ImplHeader {
    ImplHeader {
        name: name.to_string(),
        impl_generics: String::new(),
        ty_generics: String::new(),
        where_clause: String::new(),
    }
}

fn code(qual: &str, runtime: Option<&str>, code: &str) -> StructCode {
    StructCode { qual: qual.to_string(), runtime: runtime.map(|r| r.to_string()), code: code.to_string() }
}

#[test]
fn state_struct_gets_runtime_accessor() {
    let out = struct_output(DeriveKind::State, &header("Point"), &code("", Some("0"), "impl A for Point {}"));
    assert_eq!(out, "impl Point  { fn runtime(&self) -> &Runtime { &self.0 } } impl A for Point {}");
    let out = struct_output(DeriveKind::Serialize, &header("Point"), &code("", None, "impl S for Point {}"));
    assert_eq!(out, "impl S for Point {}");
}

#[test]
fn state_enum_matches_each_variant() {
    let h = ImplHeader {
        name: "Pos".to_string(),
        impl_generics: "<T>".to_string(),
        ty_generics: "<T>".to_string(),
        where_clause: "where T: Copy".to_string(),
    };
    let variants = vec![code("::TwoDim", Some("1"), "A"), code("::ThreeDim", Some("runtime"), "B")];
    assert_eq!(
        enum_output(DeriveKind::State, &h, &variants),
        "impl<T> Pos<T> where T: Copy { fn runtime(&self) -> &Runtime { match self { \
         Pos::TwoDim { 1: ref runtime, .. } => runtime, Pos::ThreeDim { runtime: ref runtime, .. } => runtime, \
         } } } AB"
    );
    assert_eq!(enum_output(DeriveKind::Deserialize, &h, &variants), "AB");
}

use vector_state::derive::{derive_output, DeriveOutput};

#[test]
fn output_is_errors_or_wrapped_code() {
    assert!(matches!(derive_output(DeriveKind::State, "point", 2, &Some("impl X {}".to_string())), DeriveOutput::Errors));
    match derive_output(DeriveKind::Serialize, "point", 0, &Some("impl X {}".to_string())) {
        DeriveOutput::Code(code) => assert_eq!(code, wrap_in_const(DeriveKind::Serialize, "point", "impl X {}")),
        DeriveOutput::Errors => panic!("no errors were recorded"),
    }
    match derive_output(DeriveKind::State, "pos", 0, &None) {
        DeriveOutput::Code(code) => assert_eq!(code, wrap_in_const(DeriveKind::State, "pos", "")),
        DeriveOutput::Errors => panic!("no errors were recorded"),
    }
}
