use vector_state::field::{default_value, FieldError, FieldInput, IndexedField, Lit, MetaItem, PathField, is_primitive_type};

fn tag(digits: &str) -> MetaItem {
    MetaItem::NameValue {
        path: "tag".to_string(),
        lit: Lit::Int { text: digits.to_string(), digits: digits.to_string() },
    }
}

fn default(value: &str) -> MetaItem {
    MetaItem::NameValue { path: "default".to_string(), lit: Lit::Str { value: value.to_string() } }
}

fn input(name: Option<&str>, ty: &str, items: Vec<MetaItem>) -> FieldInput {
    FieldInput { name: name.map(|n| n.to_string()), ty: ty.to_string(), items }
}

#[test]
fn primitive_types() {
    for ty in ["bool", "i8", "i16", "i32", "i64", "u8", "u16", "u32", "u64"] {
        assert!(is_primitive_type(ty));
    }
    for ty in ["u128", "usize", "f32", "String", "Point", "i32 ", ""] {
        assert!(!is_primitive_type(ty));
    }
}

#[test]
fn primitive_field_with_default() {
    let f = input(Some("x"), "i32", vec![tag("0"), default("7")]);
    let mut errors = Vec::new();
    let field = IndexedField::parse(&f, 1, &mut errors).unwrap();
    assert!(errors.is_empty());
    assert_eq!(field.tag(), 0);
    assert_eq!(field.to_init(), "x: 7");
    assert_eq!(field.to_sizer(), "size += (0u32 << 3 | 0u32).size(); size += self.x.size();");
    assert_eq!(field.to_serializer(), "(0u32 << 3 | 0u32).serialize(writer)?; self.x.serialize(writer)?;");
}

#[test]
fn primitive_tuple_field_without_default() {
    let f = input(None, "u64", vec![tag("12")]);
    let mut errors = Vec::new();
    let field = IndexedField::parse(&f, 2, &mut errors).unwrap();
    assert!(errors.is_empty());
    assert_eq!(field.tag(), 12);
    assert_eq!(field.to_init(), "2: Default::default()");
    assert_eq!(field.to_sizer(), "size += (12u32 << 3 | 0u32).size(); size += self.2.size();");
}

#[test]
fn nested_state_field() {
    let f = input(Some("pos"), "Pos2d", vec![tag("7")]);
    let mut errors = Vec::new();
    let field = IndexedField::parse(&f, 0, &mut errors).unwrap();
    assert!(errors.is_empty());
    assert_eq!(field.to_init(), "pos: <Pos2d>::new(path.derive(7u16))");
    assert_eq!(
        field.to_sizer(),
        "size += (7u32 << 3 | 2u32).size(); size += self.pos.size().size(); size += self.pos.size();"
    );
    assert_eq!(
        field.to_serializer(),
        "(7u32 << 3 | 2u32).serialize(writer)?; self.pos.size().serialize(writer)?; self.pos.serialize(writer)?;"
    );
}

#[test]
fn missing_tag() {
    let f = input(Some("x"), "i32", vec![]);
    let mut errors = Vec::new();
    assert!(IndexedField::parse(&f, 0, &mut errors).is_err());
    assert_eq!(errors.len(), 1);
    assert!(matches!(errors[0], FieldError::MissingTag));
    assert_eq!(errors[0].message(), "expected a `tag` attribute #[state(tag = ...)]");
}

#[test]
fn unparsable_tag_is_not_missing() {
    let f = input(Some("x"), "i32", vec![MetaItem::NameValue {
        path: "tag".to_string(),
        lit: Lit::Int { text: "70000".to_string(), digits: "70000".to_string() },
    }]);
    let mut errors = Vec::new();
    assert!(IndexedField::parse(&f, 0, &mut errors).is_err());
    assert_eq!(errors.len(), 1);
    assert!(matches!(&errors[0], FieldError::UnparsableTag { text } if text == "70000"));
    assert_eq!(errors[0].message(), "unable to parse #[state(tag = 70000)]");
}

#[test]
fn tag_must_be_an_integer() {
    let f = input(Some("x"), "i32", vec![MetaItem::NameValue {
        path: "tag".to_string(),
        lit: Lit::Str { value: "0".to_string() },
    }]);
    let mut errors = Vec::new();
    assert!(IndexedField::parse(&f, 0, &mut errors).is_err());
    assert_eq!(errors.len(), 1);
    assert!(matches!(errors[0], FieldError::ExpectedIntLiteral));
}

#[test]
fn duplicate_tag_keeps_the_first() {
    let f = input(Some("x"), "i32", vec![tag("3"), tag("4")]);
    let mut errors = Vec::new();
    let field = IndexedField::parse(&f, 0, &mut errors).unwrap();
    assert_eq!(field.tag(), 3);
    assert_eq!(errors.len(), 1);
    assert!(matches!(errors[0], FieldError::DuplicateTag));
}

#[test]
fn default_on_nested_state() {
    let f = input(Some("good"), "Good", vec![tag("0"), default("0")]);
    let mut errors = Vec::new();
    let field = IndexedField::parse(&f, 1, &mut errors).unwrap();
    assert_eq!(errors.len(), 1);
    assert!(matches!(errors[0], FieldError::DefaultForNestedState));
    assert_eq!(errors[0].message(), "unexpected default value for this nested state");
    assert_eq!(field.to_init(), "good: <Good>::new(path.derive(0u16))");
}

#[test]
fn unparsable_default() {
    let f = input(Some("x"), "i32", vec![tag("0"), default("\"oops")]);
    let mut errors = Vec::new();
    assert!(IndexedField::parse(&f, 0, &mut errors).is_ok());
    assert_eq!(errors.len(), 1);
    assert!(matches!(&errors[0], FieldError::UnparsableDefault { value } if value == "\"oops"));
    assert_eq!(errors[0].message(), "unable to parse #[state(default = \"\\\"oops\")]");
}

#[test]
fn unknown_items_and_literals() {
    let f = input(Some("x"), "i32", vec![
        MetaItem::NameValue { path: "what".to_string(), lit: Lit::Other },
        MetaItem::Other { path: "a :: b".to_string() },
        MetaItem::Literal,
        tag("0"),
    ]);
    let mut errors = Vec::new();
    assert!(IndexedField::parse(&f, 0, &mut errors).is_ok());
    assert_eq!(errors.len(), 3);
    assert!(matches!(&errors[0], FieldError::UnknownAttribute { path } if path == "what"));
    assert!(matches!(&errors[1], FieldError::UnknownAttribute { path } if path == "a::b"));
    assert!(matches!(errors[2], FieldError::UnexpectedLiteral));
    assert_eq!(errors[1].message(), "unknown state attribute `a::b`");
    assert_eq!(errors[2].message(), "unexpected literal in state attributes");
}

#[test]
fn errors_follow_earlier_ones() {
    let mut errors = vec![FieldError::UnexpectedLiteral];
    let f = input(Some("x"), "i32", vec![default("1")]);
    assert!(IndexedField::parse(&f, 0, &mut errors).is_err());
    assert_eq!(errors.len(), 2);
    assert!(matches!(errors[1], FieldError::MissingTag));
}

#[test]
fn path_field() {
    let f = input(None, "Path", vec![]);
    let p = PathField::new(&f, 0);
    assert_eq!(p.to_arg(), "path: Path");
    assert_eq!(p.to_init(), "0: path");
    let f = input(Some("path"), "Path", vec![]);
    assert_eq!(PathField::new(&f, 3).to_init(), "path: path");
}

#[test]
fn default_must_be_a_string_and_set_once() {
    let f = input(Some("x"), "u8", vec![
        tag("1"),
        MetaItem::NameValue { path: "default".to_string(), lit: Lit::Int { text: "3".to_string(), digits: "3".to_string() } },
        default("4"),
        default("5"),
    ]);
    let mut errors = Vec::new();
    let field = IndexedField::parse(&f, 0, &mut errors).unwrap();
    assert_eq!(errors.len(), 2);
    assert!(matches!(errors[0], FieldError::ExpectedStrLiteral));
    assert!(matches!(errors[1], FieldError::DuplicateDefault));
    assert_eq!(field.to_init(), "x: 4");
}

#[test]
fn tag_with_plus_sign_and_at_limit() {
    let f = input(Some("x"), "bool", vec![tag("+65535")]);
    let mut errors = Vec::new();
    let field = IndexedField::parse(&f, 0, &mut errors).unwrap();
    assert!(errors.is_empty());
    assert_eq!(field.tag(), 65535);
    assert_eq!(field.to_sizer(), "size += (65535u32 << 3 | 0u32).size(); size += self.x.size();");
}

#[test]
fn parse_given_lexer_answers() {
    let f = input(Some("x"), "i32", vec![tag("0"), default("7"), default("8")]);
    let mut errors = Vec::new();
    let field = IndexedField::parse_lexed(&f, 0, &vec![false, false, true], &mut errors).unwrap();
    assert_eq!(errors.len(), 1);
    assert!(matches!(&errors[0], FieldError::UnparsableDefault { value } if value == "7"));
    assert_eq!(field.to_init(), "x: 8");
    let mut errors = Vec::new();
    let field = IndexedField::parse_lexed(&f, 0, &vec![false, true, true], &mut errors).unwrap();
    assert_eq!(errors.len(), 1);
    assert!(matches!(errors[0], FieldError::DuplicateDefault));
    assert_eq!(field.to_init(), "x: 7");
}

#[test]
fn default_value_picks_string_defaults_only() {
    assert_eq!(default_value(&default("7")), Some("7"));
    assert_eq!(default_value(&tag("7")), None);
    assert_eq!(default_value(&MetaItem::NameValue {
        path: "default".to_string(),
        lit: Lit::Int { text: "7".to_string(), digits: "7".to_string() },
    }), None);
    assert_eq!(default_value(&MetaItem::NameValue { path: "other".to_string(), lit: Lit::Str { value: "7".to_string() } }), None);
    assert_eq!(default_value(&MetaItem::Other { path: "default".to_string() }), None);
    assert_eq!(default_value(&MetaItem::Literal), None);
}
