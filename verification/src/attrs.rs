//! The parts of a derive input that the entity macros read, held as plain
//! values: attributes with their `name = "value"` arguments, the model's
//! fields with their types, and the variants of the relation enum.

use vstd::prelude::*;
use crate::text::same_text;

verus! {

/// One item of an attribute's comma-separated argument list.
#[derive(Debug, Clone)]
pub enum MetaItem {
    /// `key = value`: `key` is the path when it is a single identifier,
    /// `str_value` the value when it is a string literal.
    NameValue { key: Option<String>, str_value: Option<String> },
    /// A bare path or a nested list.
    Other,
}

/// An outer attribute of an item.
#[derive(Debug, Clone)]
pub enum Attribute {
    /// `#[path(tokens)]`: `path_ident` is the path when it is a single
    /// identifier, `tokens` the text of the tokens between the brackets.
    List { path_ident: Option<String>, tokens: String },
    /// `#[path]` or `#[path = value]`.
    Other,
}

/// The type of a field: its text, the identifier of its last path segment
/// when it is a path type (`Option` for `Option<i32>`), and the identifier
/// of the last path segment of that segment's first type argument when
/// there is one (`i32` for `Option<i32>`).
#[derive(Debug, Clone)]
pub struct FieldType {
    pub text: String,
    pub last_segment: Option<String>,
    pub inner_segment: Option<String>,
}

/// A named field of the model struct.
#[derive(Debug, Clone)]
pub struct ModelField {
    pub name: String,
    pub ty: FieldType,
    pub attrs: Vec<Attribute>,
}

/// A variant of the relation enum.
#[derive(Debug, Clone)]
pub struct RelationVariant {
    pub name: String,
    pub attrs: Vec<Attribute>,
}

pub enum MetaItemView {
    NameValue { key: Option<Seq<char>>, str_value: Option<Seq<char>> },
    Other,
}

pub enum AttributeView {
    List { path_ident: Option<Seq<char>>, tokens: Seq<char> },
    Other,
}

pub struct FieldTypeView {
    pub text: Seq<char>,
    pub last_segment: Option<Seq<char>>,
    pub inner_segment: Option<Seq<char>>,
}

pub struct ModelFieldView {
    pub name: Seq<char>,
    pub ty: FieldTypeView,
    pub attrs: Seq<AttributeView>,
}

pub struct RelationVariantView {
    pub name: Seq<char>,
    pub attrs: Seq<AttributeView>,
}

impl DeepView for MetaItem {
    type V = MetaItemView;

    open spec fn deep_view(&self) -> MetaItemView {
        match self {
            MetaItem::NameValue { key, str_value } => MetaItemView::NameValue {
                key: key.deep_view(),
                str_value: str_value.deep_view(),
            },
            MetaItem::Other => MetaItemView::Other,
        }
    }
}

impl DeepView for Attribute {
    type V = AttributeView;

    open spec fn deep_view(&self) -> AttributeView {
        match self {
            Attribute::List { path_ident, tokens } => AttributeView::List {
                path_ident: path_ident.deep_view(),
                tokens: tokens@,
            },
            Attribute::Other => AttributeView::Other,
        }
    }
}

impl DeepView for FieldType {
    type V = FieldTypeView;

    open spec fn deep_view(&self) -> FieldTypeView {
        FieldTypeView {
            text: self.text@,
            last_segment: self.last_segment.deep_view(),
            inner_segment: self.inner_segment.deep_view(),
        }
    }
}

impl DeepView for ModelField {
    type V = ModelFieldView;

    open spec fn deep_view(&self) -> ModelFieldView {
        ModelFieldView { name: self.name@, ty: self.ty.deep_view(), attrs: self.attrs.deep_view() }
    }
}

impl DeepView for RelationVariant {
    type V = RelationVariantView;

    open spec fn deep_view(&self) -> RelationVariantView {
        RelationVariantView { name: self.name@, attrs: self.attrs.deep_view() }
    }
}

/// The optional identifier is `name`.
pub open spec fn ident_is(ident: Option<Seq<char>>, name: Seq<char>) -> bool {
    ident == Some(name)
}

/// What `syn` reads from the text of attribute arguments as a
/// comma-separated list of `syn::Meta` items: for each item, whether it is
/// `key = value`, its key when that is a single identifier and its value
/// when that is a string literal; `None` when the text does not read so.
pub uninterp spec fn syn_parse_meta_list(tokens: Seq<char>) -> Option<Seq<MetaItemView>>;

/// Calls `syn::parse::Parser::parse_str` with
/// `Punctuated::<syn::Meta, syn::token::Comma>::parse_terminated` and
/// converts each item.  Trusted: the result is `syn_parse_meta_list` of the
/// text, which holds as syn's parser depends on nothing but the text it is
/// given, and the keys and string values read from it are not printed back.
#[verifier::external_body]
fn parse_meta_list(tokens: &str) -> (res: Option<Vec<MetaItem>>)
    ensures
        res.deep_view() == syn_parse_meta_list(tokens@),
{
    let parser = syn::punctuated::Punctuated::<syn::Meta, syn::token::Comma>::parse_terminated;
    let metas = syn::parse::Parser::parse_str(parser, tokens).ok()?;
    Some(metas.iter().map(|m| match m {
        syn::Meta::NameValue(nv) => MetaItem::NameValue {
            key: nv.path.get_ident().map(|i| i.to_string()),
            str_value: match &nv.value {
                syn::Expr::Lit(syn::ExprLit { lit: syn::Lit::Str(l), .. }) => Some(l.value()),
                _ => None,
            },
        },
        _ => MetaItem::Other,
    }).collect())
}

/// The arguments of a `#[sea_orm(...)]` attribute, when it is one whose
/// arguments read as a list.
pub open spec fn sea_orm_args(attr: AttributeView) -> Option<Seq<MetaItemView>> {
    match attr {
        AttributeView::List { path_ident, tokens } => if ident_is(path_ident, "sea_orm"@) {
            syn_parse_meta_list(tokens)
        } else {
            None
        },
        AttributeView::Other => None,
    }
}

/// The type is an `Option<...>`: its last path segment is `Option`.
pub open spec fn is_option_type(ty: FieldTypeView) -> bool {
    ident_is(ty.last_segment, "Option"@)
}

/// The optional identifier is the given name.
pub fn ident_matches(ident: &Option<String>, name: &str) -> (res: bool)
    ensures
        res == ident_is(ident.deep_view(), name@),
{
    match ident {
        Some(id) => same_text(id.as_str(), name),
        None => false,
    }
}

/// The arguments of a `#[sea_orm(...)]` attribute, if `attr` is one, read
/// from its token text.
pub fn sea_orm_args_of(attr: &Attribute) -> (res: Option<Vec<MetaItem>>)
    ensures
        res.deep_view() == sea_orm_args(attr.deep_view()),
{
    match attr {
        Attribute::List { path_ident, tokens } => {
            if ident_matches(path_ident, "sea_orm") {
                parse_meta_list(tokens.as_str())
            } else {
                None
            }
        },
        Attribute::Other => None,
    }
}

/// The field's type is an `Option<...>`.
pub fn is_option(ty: &FieldType) -> (res: bool)
    ensures
        res == is_option_type(ty.deep_view()),
{
    ident_matches(&ty.last_segment, "Option")
}

/// The index of the first field named `name`.
pub open spec fn find_field_from(fields: Seq<ModelFieldView>, name: Seq<char>, i: int) -> Option<int>
    decreases fields.len() - i,
{
    if i < 0 || i >= fields.len() {
        None
    } else if fields[i].name == name {
        Some(i)
    } else {
        find_field_from(fields, name, i + 1)
    }
}

pub open spec fn find_field_spec(fields: Seq<ModelFieldView>, name: Seq<char>) -> Option<int> {
    find_field_from(fields, name, 0)
}

/// The index of the first field named `name` (what `iter().find` gives).
pub fn find_field(fields: &Vec<ModelField>, name: &str) -> (res: Option<usize>)
    ensures
        res matches Some(k) ==> find_field_spec(fields.deep_view(), name@) == Some(k as int) && k
            < fields.len(),
        res is None ==> find_field_spec(fields.deep_view(), name@) is None,
{
    let mut i: usize = 0;
    while i < fields.len()
        invariant
            i <= fields.len(),
            find_field_spec(fields.deep_view(), name@) == find_field_from(
                fields.deep_view(),
                name@,
                i as int,
            ),
        decreases fields.len() - i,
    {
        if same_text(fields[i].name.as_str(), name) {
            return Some(i);
        }
        i = i + 1;
    }
    None
}

} // verus!
