//! The fields of a state struct: reading their `#[state(...)]` attributes
//! and writing the code that initializes, sizes and serializes them.
use vstd::prelude::*;
use vstd::string::StringExecFns;
use crate::text::{decimal, without_spaces, parse_u16_spec, push_decimal, decimal_string, str_eq, remove_spaces, parse_u16};

verus! {

/// Lexes `text` with `proc_macro2`'s `FromStr for TokenStream`; true when
/// that gives tokens, false when it gives a `LexError`. Nothing is stated
/// of the result: inside a compiler-hosted macro the host's lexer decides
/// too, and `proc_macro2::fallback::force` changes which lexer runs, so the
/// same text may lex in one call and not in another.
#[verifier::external_body]
fn lexes_as_tokens(text: &str) -> (r: bool)
{
    text.parse::<proc_macro2::TokenStream>().is_ok()
}

/// The literal on the right of a `name = literal` attribute item.
pub enum Lit {
    /// An integer literal: its text as written, and its digits in base ten.
    Int { text: String, digits: String },
    /// A string literal: its value.
    Str { value: String },
    /// Any other literal.
    Other,
}

/// One item of a `#[state(...)]` attribute.
pub enum MetaItem {
    /// `path = literal`; the path as token text.
    NameValue { path: String, lit: Lit },
    /// A bare `path` or a `path(...)` list.
    Other { path: String },
    /// A bare literal.
    Literal,
}

/// A field as the derive reads it: its name (none in a tuple struct), the
/// token text of its type, and the items of its `#[state(...)]` attributes.
pub struct FieldInput {
    pub name: Option<String>,
    pub ty: String,
    pub items: Vec<MetaItem>,
}

/// A problem with the attributes of a field.
#[derive(Debug)]
pub enum FieldError {
    /// `tag = ...` with a literal that is not an integer.
    ExpectedIntLiteral,
    /// `tag = ...` with an integer that does not fit a `u16`.
    UnparsableTag { text: String },
    /// A second `tag = ...`.
    DuplicateTag,
    /// `default = ...` on a field that holds a nested state.
    DefaultForNestedState,
    /// `default = ...` with a literal that is not a string.
    ExpectedStrLiteral,
    /// `default = "..."` whose value does not lex.
    UnparsableDefault { value: String },
    /// A second `default = ...`.
    DuplicateDefault,
    /// An item other than `tag` and `default`; its path without spaces.
    UnknownAttribute { path: String },
    /// A bare literal among the items.
    UnexpectedLiteral,
    /// No `tag` item at all.
    MissingTag,
}

/// A `FieldError` with its text as characters.
pub enum FieldErrorView {
    ExpectedIntLiteral,
    UnparsableTag { text: Seq<char> },
    DuplicateTag,
    DefaultForNestedState,
    ExpectedStrLiteral,
    UnparsableDefault { value: Seq<char> },
    DuplicateDefault,
    UnknownAttribute { path: Seq<char> },
    UnexpectedLiteral,
    MissingTag,
}

impl View for FieldError {
    type V = FieldErrorView;

    open spec fn view(&self) -> FieldErrorView {
        match self {
            FieldError::ExpectedIntLiteral => FieldErrorView::ExpectedIntLiteral,
            FieldError::UnparsableTag { text } => FieldErrorView::UnparsableTag { text: text@ },
            FieldError::DuplicateTag => FieldErrorView::DuplicateTag,
            FieldError::DefaultForNestedState => FieldErrorView::DefaultForNestedState,
            FieldError::ExpectedStrLiteral => FieldErrorView::ExpectedStrLiteral,
            FieldError::UnparsableDefault { value } => FieldErrorView::UnparsableDefault { value: value@ },
            FieldError::DuplicateDefault => FieldErrorView::DuplicateDefault,
            FieldError::UnknownAttribute { path } => FieldErrorView::UnknownAttribute { path: path@ },
            FieldError::UnexpectedLiteral => FieldErrorView::UnexpectedLiteral,
            FieldError::MissingTag => FieldErrorView::MissingTag,
        }
    }
}

/// The errors as characters.
pub open spec fn errors_view(errors: Seq<FieldError>) -> Seq<FieldErrorView> {
    errors.map_values(|e: FieldError| e@)
}

/// What reading the items has gathered so far.
pub struct AttrScan {
    pub tag: Option<u16>,
    pub default: Option<Seq<char>>,
    pub tag_seen: bool,
    pub errors: Seq<FieldErrorView>,
}

/// Nothing read yet.
pub open spec fn scan_start() -> AttrScan {
    AttrScan { tag: None, default: None, tag_seen: false, errors: Seq::empty() }
}

/// `st` with one more error.
pub open spec fn with_error(st: AttrScan, e: FieldErrorView) -> AttrScan {
    AttrScan { errors: st.errors.push(e), ..st }
}

/// Reads one item: `tag = <u16>` sets the tag, `default = "<tokens>"`
/// sets the default when `lexed` says its value lexed as tokens, a
/// repeated one is an error and keeps the first; anything else is an error.
pub open spec fn scan_item(st: AttrScan, item: MetaItem, is_primitive: bool, lexed: bool) -> AttrScan {
    match item {
        MetaItem::NameValue { path, lit } => {
            if path@ == "tag"@ {
                let st = AttrScan { tag_seen: true, ..st };
                match lit {
                    Lit::Int { text, digits } => match parse_u16_spec(digits@) {
                        Some(v) => if st.tag is Some {
                            with_error(st, FieldErrorView::DuplicateTag)
                        } else {
                            AttrScan { tag: Some(v), ..st }
                        },
                        None => with_error(st, FieldErrorView::UnparsableTag { text: text@ }),
                    },
                    _ => with_error(st, FieldErrorView::ExpectedIntLiteral),
                }
            } else if path@ == "default"@ {
                let st = if is_primitive {
                    st
                } else {
                    with_error(st, FieldErrorView::DefaultForNestedState)
                };
                match lit {
                    Lit::Str { value } => if lexed {
                        if st.default is Some {
                            with_error(st, FieldErrorView::DuplicateDefault)
                        } else {
                            AttrScan { default: Some(value@), ..st }
                        }
                    } else {
                        with_error(st, FieldErrorView::UnparsableDefault { value: value@ })
                    },
                    _ => with_error(st, FieldErrorView::ExpectedStrLiteral),
                }
            } else {
                with_error(st, FieldErrorView::UnknownAttribute { path: without_spaces(path@) })
            }
        },
        MetaItem::Other { path } => with_error(
            st,
            FieldErrorView::UnknownAttribute { path: without_spaces(path@) },
        ),
        MetaItem::Literal => with_error(st, FieldErrorView::UnexpectedLiteral),
    }
}

/// Reads the items in order; `lexed[i]` tells whether the value of item
/// `i`, when it is a string default, lexed as tokens.
pub open spec fn scan_items(items: Seq<MetaItem>, is_primitive: bool, lexed: Seq<bool>) -> AttrScan
    decreases items.len(),
{
    if items.len() == 0 {
        scan_start()
    } else {
        scan_item(
            scan_items(items.drop_last(), is_primitive, lexed),
            items.last(),
            is_primitive,
            lexed[items.len() - 1],
        )
    }
}

/// The errors that reading the items of a field reports: those of the
/// items, then a missing tag when no `tag` item appeared at all.
pub open spec fn attrs_errors(items: Seq<MetaItem>, is_primitive: bool, lexed: Seq<bool>) -> Seq<FieldErrorView> {
    let st = scan_items(items, is_primitive, lexed);
    if st.tag is None && !st.tag_seen {
        st.errors.push(FieldErrorView::MissingTag)
    } else {
        st.errors
    }
}

} // verus!

verus! {

/// The characters of an optional string.
pub open spec fn opt_view(o: Option<String>) -> Option<Seq<char>> {
    match o {
        Some(s) => Some(s@),
        None => None,
    }
}

proof fn lemma_errors_push(errors: Seq<FieldError>, e: FieldError)
    ensures
        errors_view(errors.push(e)) == errors_view(errors).push(e@),
{
    assert(errors_view(errors.push(e)) =~= errors_view(errors).push(e@));
}

fn report(errors: &mut Vec<FieldError>, e: FieldError)
    ensures
        errors_view(final(errors)@) == errors_view(old(errors)@).push(e@),
{
    proof { lemma_errors_push(errors@, e); }
    errors.push(e);
}

/// Reads one item into `tag`, `default` and `tag_seen`, reporting its errors.
fn scan_item_exec(
    item: &MetaItem,
    is_primitive: bool,
    lexed: bool,
    tag: &mut Option<u16>,
    default: &mut Option<String>,
    tag_seen: &mut bool,
    errors: &mut Vec<FieldError>,
)
    ensures
        ({
            let st = AttrScan {
                tag: *old(tag),
                default: opt_view(*old(default)),
                tag_seen: *old(tag_seen),
                errors: errors_view(old(errors)@),
            };
            let next = scan_item(st, *item, is_primitive, lexed);
            &&& *final(tag) == next.tag
            &&& opt_view(*final(default)) == next.default
            &&& *final(tag_seen) == next.tag_seen
            &&& errors_view(final(errors)@) == next.errors
        }),
{
    match item {
        MetaItem::NameValue { path, lit } => {
            if str_eq(path.as_str(), "tag") {
                *tag_seen = true;
                match lit {
                    Lit::Int { text, digits } => {
                        match parse_u16(digits.as_str()) {
                            Some(v) => {
                                if tag.is_some() {
                                    report(errors, FieldError::DuplicateTag);
                                } else {
                                    *tag = Some(v);
                                }
                            },
                            None => {
                                report(errors, FieldError::UnparsableTag { text: text.clone() });
                            },
                        }
                    },
                    _ => {
                        report(errors, FieldError::ExpectedIntLiteral);
                    },
                }
            } else if str_eq(path.as_str(), "default") {
                if !is_primitive {
                    report(errors, FieldError::DefaultForNestedState);
                }
                match lit {
                    Lit::Str { value } => {
                        if lexed {
                            if default.is_some() {
                                report(errors, FieldError::DuplicateDefault);
                            } else {
                                *default = Some(value.clone());
                            }
                        } else {
                            report(errors, FieldError::UnparsableDefault { value: value.clone() });
                        }
                    },
                    _ => {
                        report(errors, FieldError::ExpectedStrLiteral);
                    },
                }
            } else {
                report(errors, FieldError::UnknownAttribute { path: remove_spaces(path.as_str()) });
            }
        },
        MetaItem::Other { path } => {
            report(errors, FieldError::UnknownAttribute { path: remove_spaces(path.as_str()) });
        },
        MetaItem::Literal => {
            report(errors, FieldError::UnexpectedLiteral);
        },
    }
}

/// Reads the `#[state(...)]` items of a field: the tag and the optional
/// default, with each problem reported to `errors` in the order of the
/// items; fails when no tag was read. `lexed[i]` tells whether the value
/// of item `i`, when it is a string default, lexed as tokens.
fn parse_attrs(items: &Vec<MetaItem>, is_primitive: bool, lexed: &Vec<bool>, errors: &mut Vec<FieldError>) -> (r: Result<(u16, Option<String>), ()>)
    requires
        lexed.len() == items.len(),
    ensures
        errors_view(final(errors)@) == errors_view(old(errors)@) + attrs_errors(items@, is_primitive, lexed@),
        match scan_items(items@, is_primitive, lexed@).tag {
            Some(t) => r matches Ok((t2, d)) && t2 == t && opt_view(d) == scan_items(items@, is_primitive, lexed@).default,
            None => r is Err,
        },
{
    let mut tag: Option<u16> = None;
    let mut default: Option<String> = None;
    let mut tag_seen = false;
    let ghost start = errors_view(errors@);
    let mut i: usize = 0;
    proof {
        assert(items@.take(0) =~= Seq::<MetaItem>::empty());
    }
    while i < items.len()
        invariant
            i <= items.len(),
            lexed.len() == items.len(),
            ({
                let st = scan_items(items@.take(i as int), is_primitive, lexed@);
                &&& tag == st.tag
                &&& opt_view(default) == st.default
                &&& tag_seen == st.tag_seen
                &&& errors_view(errors@) == start + st.errors
            }),
        decreases items.len() - i,
    {
        let ghost before = errors_view(errors@);
        let ghost st = scan_items(items@.take(i as int), is_primitive, lexed@);
        let ghost local = AttrScan { errors: errors_view(errors@), ..st };
        scan_item_exec(&items[i], is_primitive, lexed[i], &mut tag, &mut default, &mut tag_seen, errors);
        proof {
            assert(items@.take(i + 1).drop_last() =~= items@.take(i as int));
            assert(items@.take(i + 1).last() == items@[i as int]);
            lemma_scan_item_errors(st, local, items@[i as int], is_primitive, lexed@[i as int], start);
        }
        i += 1;
    }
    proof {
        assert(items@.take(items.len() as int) =~= items@);
    }
    if let Some(t) = tag {
        Ok((t, default))
    } else {
        if !tag_seen {
            report(errors, FieldError::MissingTag);
        }
        Err(())
    }
}

/// Reading an item from a state with other errors before it gives the same
/// fields and the same new errors.
proof fn lemma_scan_item_errors(st: AttrScan, local: AttrScan, item: MetaItem, is_primitive: bool, lexed: bool, start: Seq<FieldErrorView>)
    requires
        local.tag == st.tag,
        local.default == st.default,
        local.tag_seen == st.tag_seen,
        local.errors == start + st.errors,
    ensures
        ({
            let a = scan_item(st, item, is_primitive, lexed);
            let b = scan_item(local, item, is_primitive, lexed);
            &&& a.tag == b.tag
            &&& a.default == b.default
            &&& a.tag_seen == b.tag_seen
            &&& b.errors == start + a.errors
        }),
{
    let a = scan_item(st, item, is_primitive, lexed);
    let b = scan_item(local, item, is_primitive, lexed);
    assert(b.errors =~= start + a.errors);
}

} // verus!

verus! {

/// Whether `ty` names a primitive type that a field stores directly; other
/// types hold a nested state.
pub open spec fn is_primitive_type_spec(ty: Seq<char>) -> bool {
    ||| ty == "bool"@
    ||| ty == "i8"@
    ||| ty == "i16"@
    ||| ty == "i32"@
    ||| ty == "i64"@
    ||| ty == "u8"@
    ||| ty == "u16"@
    ||| ty == "u32"@
    ||| ty == "u64"@
}

/// Whether the type text `ty` is one of the primitive types.
pub fn is_primitive_type(ty: &str) -> (r: bool)
    ensures
        r == is_primitive_type_spec(ty@),
{
    // Some primitive types are left out on purpose.
    str_eq(ty, "bool") || str_eq(ty, "i8") || str_eq(ty, "i16") || str_eq(ty, "i32") || str_eq(ty, "i64")
        || str_eq(ty, "u8") || str_eq(ty, "u16") || str_eq(ty, "u32") || str_eq(ty, "u64")
}

/// How a field is stored.
pub enum FieldKind {
    /// A primitive value, with the token text of its default if one was given.
    Primitive { default: Option<String> },
    /// A nested state.
    State,
}

/// A `FieldKind` with its text as characters.
pub enum FieldKindView {
    Primitive { default: Option<Seq<char>> },
    State,
}

impl View for FieldKind {
    type V = FieldKindView;

    open spec fn view(&self) -> FieldKindView {
        match self {
            FieldKind::Primitive { default } => FieldKindView::Primitive { default: opt_view(*default) },
            FieldKind::State => FieldKindView::State,
        }
    }
}

/// A field of a state with its tag.
pub struct IndexedField {
    name: Option<String>,
    ty: String,
    index: usize,
    tag: u16,
    kind: FieldKind,
}

/// An `IndexedField` with its text as characters.
pub struct IndexedFieldView {
    pub name: Option<Seq<char>>,
    pub ty: Seq<char>,
    pub index: nat,
    pub tag: u16,
    pub kind: FieldKindView,
}

impl View for IndexedField {
    type V = IndexedFieldView;

    closed spec fn view(&self) -> IndexedFieldView {
        IndexedFieldView {
            name: opt_view(self.name),
            ty: self.ty@,
            index: self.index as nat,
            tag: self.tag,
            kind: self.kind@,
        }
    }
}

/// How the field is reached from `self`: its name, or its position.
pub open spec fn access_text(name: Option<Seq<char>>, index: nat) -> Seq<char> {
    match name {
        Some(n) => n,
        None => decimal(index),
    }
}

/// The initializer of a field in a struct expression.
pub open spec fn init_text(name: Option<Seq<char>>, index: nat, value: Seq<char>) -> Seq<char> {
    access_text(name, index) + ": "@ + value
}

/// The initial value of a field: its default, the type's default, or a
/// nested state at the path extended by the tag.
pub open spec fn init_value_text(f: IndexedFieldView) -> Seq<char> {
    match f.kind {
        FieldKindView::Primitive { default: Some(d) } => d,
        FieldKindView::Primitive { default: None } => "Default::default()"@,
        FieldKindView::State => "<"@ + f.ty + ">::new(path.derive("@ + decimal(f.tag as nat) + "u16))"@,
    }
}

/// The wire type of a field: 0 for a varint, 2 for a length-prefixed
/// nested state.
pub open spec fn wire_type(kind: FieldKindView) -> nat {
    match kind {
        FieldKindView::Primitive { .. } => 0,
        FieldKindView::State => 2,
    }
}

/// The expression of the key of a field: its tag shifted over the wire type.
pub open spec fn key_text(f: IndexedFieldView) -> Seq<char> {
    "("@ + decimal(f.tag as nat) + "u32 << 3 | "@ + decimal(wire_type(f.kind)) + "u32)"@
}

/// The statements that add the size of a field to `size`: its key, the
/// length prefix of a nested state, and its value.
pub open spec fn sizer_text(f: IndexedFieldView) -> Seq<char> {
    let access = access_text(f.name, f.index);
    "size += "@ + key_text(f) + ".size(); "@ + (match f.kind {
        FieldKindView::State => "size += self."@ + access + ".size().size(); "@,
        _ => Seq::empty(),
    }) + "size += self."@ + access + ".size();"@
}

/// The statements that write a field to `writer`: its key, the length
/// prefix of a nested state, and its value.
pub open spec fn serializer_text(f: IndexedFieldView) -> Seq<char> {
    let access = access_text(f.name, f.index);
    key_text(f) + ".serialize(writer)?; "@ + (match f.kind {
        FieldKindView::State => "self."@ + access + ".size().serialize(writer)?; "@,
        _ => Seq::empty(),
    }) + "self."@ + access + ".serialize(writer)?;"@
}

/// How the field is reached from `self`.
fn get_access(name: &Option<String>, index: usize) -> (r: String)
    ensures
        r@ == access_text(opt_view(*name), index as nat),
{
    match name {
        Some(name) => name.clone(),
        None => decimal_string(index as u64),
    }
}

/// The value of a `default = "<string>"` item, none for any other item.
pub open spec fn default_value_spec(item: MetaItem) -> Option<Seq<char>> {
    match item {
        MetaItem::NameValue { path, lit: Lit::Str { value } } => if path@ == "default"@ {
            Some(value@)
        } else {
            None
        },
        _ => None,
    }
}

/// The value of a `default = "<string>"` item: the text whose lexing
/// decides whether the default is kept.
pub fn default_value(item: &MetaItem) -> (r: Option<&str>)
    ensures
        match default_value_spec(*item) {
            Some(v) => r matches Some(t) && t@ == v,
            None => r is None,
        },
{
    match item {
        MetaItem::NameValue { path, lit: Lit::Str { value } } => {
            if str_eq(path.as_str(), "default") {
                Some(value.as_str())
            } else {
                None
            }
        },
        _ => None,
    }
}

/// The field that reading `field` at position `index` gives, or none
/// when no tag was read.
pub open spec fn parse_outcome(field: FieldInput, index: nat, lexed: Seq<bool>) -> Option<IndexedFieldView> {
    let prim = is_primitive_type_spec(field.ty@);
    let st = scan_items(field.items@, prim, lexed);
    match st.tag {
        Some(t) => Some(
            IndexedFieldView {
                name: opt_view(field.name),
                ty: field.ty@,
                index,
                tag: t,
                kind: if prim {
                    FieldKindView::Primitive { default: st.default }
                } else {
                    FieldKindView::State
                },
            },
        ),
        None => None,
    }
}

/// The initializer `access: value` of a field.
fn get_init(name: &Option<String>, index: usize, value: &str) -> (r: String)
    ensures
        r@ == init_text(opt_view(*name), index as nat, value@),
{
    let mut r = get_access(name, index);
    r.append(": ");
    r.append(value);
    r
}

impl IndexedField {
    /// Reads a field at position `index` given, for each item, whether its
    /// value lexed as tokens when it is a string default (`lexed[i]` for
    /// item `i`): primitive when its type is one of the primitive types, a
    /// nested state otherwise. Problems go to `errors`; without a tag there
    /// is no field.
    pub fn parse_lexed(field: &FieldInput, index: usize, lexed: &Vec<bool>, errors: &mut Vec<FieldError>) -> (r: Result<Self, ()>)
        requires
            lexed.len() == field.items.len(),
        ensures
            errors_view(final(errors)@) == errors_view(old(errors)@) + attrs_errors(
                field.items@,
                is_primitive_type_spec(field.ty@),
                lexed@,
            ),
            match parse_outcome(*field, index as nat, lexed@) {
                Some(v) => r matches Ok(f) && f@ == v,
                None => r is Err,
            },
    {
        let is_primitive = is_primitive_type(field.ty.as_str());
        match parse_attrs(&field.items, is_primitive, lexed, errors) {
            Ok((tag, default)) => {
                let kind = if is_primitive {
                    FieldKind::Primitive { default }
                } else {
                    FieldKind::State
                };
                Ok(IndexedField { name: field.name.clone(), ty: field.ty.clone(), index, tag, kind })
            },
            Err(()) => Err(()),
        }
    }

    /// Reads a field at position `index`, lexing with `proc_macro2` the
    /// value of each string default, as `default_value` picks it out. Whatever the lexer answers, the outcome
    /// is that of `parse_lexed` for some answer per item: the tag, the kind
    /// and every other error are fixed by the items, and each default is
    /// either kept or reported as not lexing.
    pub fn parse(field: &FieldInput, index: usize, errors: &mut Vec<FieldError>) -> (r: Result<Self, ()>)
        ensures
            exists|lexed: Seq<bool>| #![auto]
                {
                    &&& lexed.len() == field.items.len()
                    &&& forall|i: int| 0 <= i < lexed.len() && default_value_spec(field.items@[i]) is None ==> !lexed[i]
                    &&& errors_view(final(errors)@) == errors_view(old(errors)@) + attrs_errors(
                        field.items@,
                        is_primitive_type_spec(field.ty@),
                        lexed,
                    )
                    &&& match parse_outcome(*field, index as nat, lexed) {
                        Some(v) => r matches Ok(f) && f@ == v,
                        None => r is Err,
                    }
                },
    {
        let mut lexed: Vec<bool> = Vec::new();
        let mut i: usize = 0;
        while i < field.items.len()
            invariant
                i <= field.items.len(),
                lexed.len() == i,
                forall|j: int| 0 <= j < i && default_value_spec(#[trigger] field.items@[j]) is None ==> !lexed@[j],
            decreases field.items.len() - i,
        {
            let answer = match default_value(&field.items[i]) {
                Some(value) => lexes_as_tokens(value),
                None => false,
            };
            lexed.push(answer);
            i += 1;
        }
        let r = Self::parse_lexed(field, index, &lexed, errors);
        assert(lexed@.len() == field.items.len());
        r
    }

    /// The tag of the field.
    pub fn tag(&self) -> (r: u16)
        ensures
            r == self@.tag,
    {
        self.tag
    }

    /// The initializer of the field in the constructor of its state.
    pub fn to_init(&self) -> (r: String)
        ensures
            r@ == init_text(self@.name, self@.index, init_value_text(self@)),
    {
        let value = match &self.kind {
            FieldKind::Primitive { default: Some(default) } => default.clone(),
            FieldKind::Primitive { default: None } => String::from_str("Default::default()"),
            FieldKind::State => {
                let mut v = String::from_str("<");
                v.append(self.ty.as_str());
                v.append(">::new(path.derive(");
                push_decimal(&mut v, self.tag as u64);
                v.append("u16))");
                v
            },
        };
        get_init(&self.name, self.index, value.as_str())
    }

    fn push_key(&self, s: &mut String)
        ensures
            final(s)@ == old(s)@ + key_text(self@),
    {
        let ghost start = s@;
        s.append("(");
        push_decimal(s, self.tag as u64);
        s.append("u32 << 3 | ");
        let wire_type: u64 = match self.kind {
            FieldKind::Primitive { .. } => 0,
            FieldKind::State => 2,
        };
        push_decimal(s, wire_type);
        s.append("u32)");
        assert(s@ =~= start + key_text(self@));
    }

    /// The statements that add the size of the field to `size`.
    pub fn to_sizer(&self) -> (r: String)
        ensures
            r@ == sizer_text(self@),
    {
        let access = get_access(&self.name, self.index);
        let mut s = String::from_str("size += ");
        self.push_key(&mut s);
        s.append(".size(); ");
        match self.kind {
            FieldKind::Primitive { .. } => {},
            FieldKind::State => {
                s.append("size += self.");
                s.append(access.as_str());
                s.append(".size().size(); ");
            },
        }
        s.append("size += self.");
        s.append(access.as_str());
        s.append(".size();");
        assert(s@ =~= sizer_text(self@));
        s
    }

    /// The statements that write the field to `writer`.
    pub fn to_serializer(&self) -> (r: String)
        ensures
            r@ == serializer_text(self@),
    {
        let access = get_access(&self.name, self.index);
        let mut s = String::new();
        self.push_key(&mut s);
        s.append(".serialize(writer)?; ");
        match self.kind {
            FieldKind::Primitive { .. } => {},
            FieldKind::State => {
                s.append("self.");
                s.append(access.as_str());
                s.append(".size().serialize(writer)?; ");
            },
        }
        s.append("self.");
        s.append(access.as_str());
        s.append(".serialize(writer)?;");
        assert(s@ =~= serializer_text(self@));
        s
    }
}

/// The field of a state that holds its path.
pub struct PathField {
    name: Option<String>,
    ty: String,
    index: usize,
}

/// A `PathField` with its text as characters.
pub struct PathFieldView {
    pub name: Option<Seq<char>>,
    pub ty: Seq<char>,
    pub index: nat,
}

impl View for PathField {
    type V = PathFieldView;

    closed spec fn view(&self) -> PathFieldView {
        PathFieldView { name: opt_view(self.name), ty: self.ty@, index: self.index as nat }
    }
}

impl PathField {
    /// The path field `field` at position `index`.
    pub fn new(field: &FieldInput, index: usize) -> (r: Self)
        ensures
            r@ == (PathFieldView { name: opt_view(field.name), ty: field.ty@, index: index as nat }),
    {
        PathField { name: field.name.clone(), ty: field.ty.clone(), index }
    }

    /// The parameter `path: <type>` of the constructor.
    pub fn to_arg(&self) -> (r: String)
        ensures
            r@ == "path: "@ + self@.ty,
    {
        let mut r = String::from_str("path: ");
        r.append(self.ty.as_str());
        r
    }

    /// The initializer of the field from the `path` parameter.
    pub fn to_init(&self) -> (r: String)
        ensures
            r@ == init_text(self@.name, self@.index, "path"@),
    {
        get_init(&self.name, self.index, "path")
    }
}

} // verus!

verus! {

/// What `format!("{:?}", s)` gives for the string `s`.
pub uninterp spec fn debug_text(s: Seq<char>) -> Seq<char>;

/// The `Debug` form of a string, quoted and escaped by std's formatting,
/// named and not spelled out.
#[verifier::external_body]
fn debug_quoted(s: &str) -> (r: String)
    ensures
        r@ == debug_text(s@),
{
    format!("{:?}", s)
}

/// The text of the compile error for `e`.
pub open spec fn field_error_message(e: FieldErrorView) -> Seq<char> {
    match e {
        FieldErrorView::ExpectedIntLiteral => "expected `tag` to be an integer literal"@,
        FieldErrorView::UnparsableTag { text } => "unable to parse #[state(tag = "@ + text + ")]"@,
        FieldErrorView::DuplicateTag => "duplicate state attribute `tag`"@,
        FieldErrorView::DefaultForNestedState => "unexpected default value for this nested state"@,
        FieldErrorView::ExpectedStrLiteral => "expected `default` to be a string literal"@,
        FieldErrorView::UnparsableDefault { value } => "unable to parse #[state(default = "@ + debug_text(value)
            + ")]"@,
        FieldErrorView::DuplicateDefault => "duplicate state attribute `default`"@,
        FieldErrorView::UnknownAttribute { path } => "unknown state attribute `"@ + path + "`"@,
        FieldErrorView::UnexpectedLiteral => "unexpected literal in state attributes"@,
        FieldErrorView::MissingTag => "expected a `tag` attribute #[state(tag = ...)]"@,
    }
}

impl FieldError {
    /// The text of the compile error.
    pub fn message(&self) -> (r: String)
        ensures
            r@ == field_error_message(self@),
    {
        match self {
            FieldError::ExpectedIntLiteral => String::from_str("expected `tag` to be an integer literal"),
            FieldError::UnparsableTag { text } => {
                let mut r = String::from_str("unable to parse #[state(tag = ");
                r.append(text.as_str());
                r.append(")]");
                r
            },
            FieldError::DuplicateTag => String::from_str("duplicate state attribute `tag`"),
            FieldError::DefaultForNestedState => String::from_str("unexpected default value for this nested state"),
            FieldError::ExpectedStrLiteral => String::from_str("expected `default` to be a string literal"),
            FieldError::UnparsableDefault { value } => {
                let mut r = String::from_str("unable to parse #[state(default = ");
                let quoted = debug_quoted(value.as_str());
                r.append(quoted.as_str());
                r.append(")]");
                r
            },
            FieldError::DuplicateDefault => String::from_str("duplicate state attribute `default`"),
            FieldError::UnknownAttribute { path } => {
                let mut r = String::from_str("unknown state attribute `");
                r.append(path.as_str());
                r.append("`");
                r
            },
            FieldError::UnexpectedLiteral => String::from_str("unexpected literal in state attributes"),
            FieldError::MissingTag => String::from_str("expected a `tag` attribute #[state(tag = ...)]"),
        }
    }
}

} // verus!
