//! What reading the `#[state(...)]` items of a field does, item by item
//! and over all the items.
use vstd::prelude::*;
use crate::text::{parse_u16_spec, without_spaces};
use crate::field::{scan_item, scan_items, attrs_errors, AttrScan, FieldErrorView, Lit, MetaItem, parse_outcome, FieldInput, FieldKindView};
use crate::field::is_primitive_type_spec;

verus! {

/// Whether `item` is a `tag = ...` item, whatever its literal.
pub open spec fn is_tag_item(item: MetaItem) -> bool {
    item matches MetaItem::NameValue { path, .. } && path@ == "tag"@
}

/// Reading one item: errors are only ever added after the earlier ones,
/// one or two at a time; the first tag and the first default stay; a tag
/// is set only by a `tag` item whose digits give it; a default is set only
/// by a string `default` item that lexed, to its value.
pub proof fn law_scan_item(st: AttrScan, item: MetaItem, prim: bool, lexed: bool)
    ensures
        ({
            let next = scan_item(st, item, prim, lexed);
            &&& st.errors.len() <= next.errors.len() <= st.errors.len() + 2
            &&& next.errors.subrange(0, st.errors.len() as int) == st.errors
            &&& st.tag is Some ==> next.tag == st.tag
            &&& st.default is Some ==> next.default == st.default
            &&& next.tag_seen == (st.tag_seen || is_tag_item(item))
            &&& match next.tag {
                Some(v) => st.tag is None ==> match item {
                    MetaItem::NameValue { path, lit: Lit::Int { digits, .. } } => path@ == "tag"@ && parse_u16_spec(
                        digits@,
                    ) == Some(v),
                    _ => false,
                },
                None => true,
            }
            &&& match next.default {
                Some(d) => st.default is None ==> match item {
                    MetaItem::NameValue { path, lit: Lit::Str { value } } => path@ == "default"@ && lexed && value@
                        == d,
                    _ => false,
                },
                None => true,
            }
        }),
{
    let next = scan_item(st, item, prim, lexed);
    assert(next.errors.subrange(0, st.errors.len() as int) =~= st.errors);
}

/// What one item reports: a bare literal, an unknown item (by its path
/// without spaces), a tag that is not an integer or does not fit, a second
/// tag, a default on a nested state, a default that is not a string or
/// does not lex, a second default.
pub proof fn law_scan_item_errors(st: AttrScan, item: MetaItem, prim: bool, lexed: bool)
    ensures
        ({
            let next = scan_item(st, item, prim, lexed);
            &&& match item {
                MetaItem::Literal => next.errors == st.errors.push(FieldErrorView::UnexpectedLiteral),
                MetaItem::Other { path } => next.errors == st.errors.push(
                    FieldErrorView::UnknownAttribute { path: without_spaces(path@) },
                ),
                MetaItem::NameValue { path, lit } => if path@ == "tag"@ {
                    next.errors == match lit {
                        Lit::Int { text, digits } => match parse_u16_spec(digits@) {
                            None => st.errors.push(FieldErrorView::UnparsableTag { text: text@ }),
                            Some(_) => if st.tag is Some {
                                st.errors.push(FieldErrorView::DuplicateTag)
                            } else {
                                st.errors
                            },
                        },
                        _ => st.errors.push(FieldErrorView::ExpectedIntLiteral),
                    }
                } else if path@ == "default"@ {
                    let base = if prim {
                        st.errors
                    } else {
                        st.errors.push(FieldErrorView::DefaultForNestedState)
                    };
                    next.errors == match lit {
                        Lit::Str { value } => if !lexed {
                            base.push(FieldErrorView::UnparsableDefault { value: value@ })
                        } else if st.default is Some {
                            base.push(FieldErrorView::DuplicateDefault)
                        } else {
                            base
                        },
                        _ => base.push(FieldErrorView::ExpectedStrLiteral),
                    }
                } else {
                    next.errors == st.errors.push(FieldErrorView::UnknownAttribute { path: without_spaces(path@) })
                },
            }
        }),
{
}

/// Over all the items: a tag was seen exactly when some item is a `tag`
/// item, and a missing tag is reported, last, exactly when none is.
pub proof fn law_scan_items_tag_seen(items: Seq<MetaItem>, prim: bool, lexed: Seq<bool>)
    ensures
        scan_items(items, prim, lexed).tag_seen == exists|i: int| 0 <= i < items.len() && is_tag_item(#[trigger] items[i]),
        scan_items(items, prim, lexed).tag is Some ==> scan_items(items, prim, lexed).tag_seen,
        (forall|i: int| 0 <= i < items.len() ==> !is_tag_item(#[trigger] items[i])) ==> attrs_errors(items, prim, lexed)
            == scan_items(items, prim, lexed).errors.push(FieldErrorView::MissingTag),
        (exists|i: int| 0 <= i < items.len() && is_tag_item(#[trigger] items[i])) ==> attrs_errors(items, prim, lexed)
            == scan_items(items, prim, lexed).errors,
    decreases items.len(),
{
    if items.len() > 0 {
        let rest = items.drop_last();
        law_scan_items_tag_seen(rest, prim, lexed);
        law_scan_item(scan_items(rest, prim, lexed), items.last(), prim, lexed[items.len() - 1]);
        if exists|i: int| 0 <= i < rest.len() && is_tag_item(#[trigger] rest[i]) {
            let i = choose|i: int| 0 <= i < rest.len() && is_tag_item(#[trigger] rest[i]);
            assert(items[i] == rest[i]);
        }
        if is_tag_item(items.last()) {
            assert(items[items.len() - 1] == items.last());
        }
        if exists|i: int| 0 <= i < items.len() && is_tag_item(#[trigger] items[i]) {
            let i = choose|i: int| 0 <= i < items.len() && is_tag_item(#[trigger] items[i]);
            if i < items.len() - 1 {
                assert(rest[i] == items[i]);
            }
        }
    }
}

/// A field is parsed exactly when a tag was read; the field keeps the
/// input's name, type and position, is primitive exactly when its type is
/// one of the primitive types, and only a primitive keeps a default.
pub proof fn law_parse_outcome(field: FieldInput, index: nat, lexed: Seq<bool>)
    ensures
        ({
            let st = scan_items(field.items@, is_primitive_type_spec(field.ty@), lexed);
            &&& parse_outcome(field, index, lexed) is Some <==> st.tag is Some
            &&& parse_outcome(field, index, lexed) matches Some(v) ==> {
                &&& v.ty == field.ty@
                &&& v.index == index
                &&& Some(v.tag) == st.tag
                &&& (v.kind is Primitive <==> is_primitive_type_spec(field.ty@))
                &&& v.kind matches FieldKindView::Primitive { default } ==> default == st.default
            }
        }),
{
}

} // verus!
