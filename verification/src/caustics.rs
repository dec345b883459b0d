//! The `Caustics` derive: it reads the model struct, registers the entity's
//! name for the client, and plans the per-field condition helpers, whose
//! column is the field name in PascalCase.  The client then offers one
//! accessor per registered entity, named by the entity in lowercase.

use vstd::prelude::*;
use crate::naming::{heck_pascal_case, lowercase, pascal_case, std_lowercase};
use crate::text::same_text;

verus! {

/// `syn::Type`, a field's type, carried through unread.
#[verifier::external_type_specification]
#[verifier::external_body]
pub struct ExType(syn::Type);

/// A named field of the derive input: its name, and its type carried
/// without being read.
#[derive(Debug)]
pub struct DeriveField {
    pub name: String,
    pub ty: syn::Type,
}

/// What the derive reads of its input: the type's name, and the names and
/// types of its fields when it is a struct with named fields.
#[derive(Debug)]
pub struct DeriveSummary {
    pub name: String,
    pub named_fields: Option<Vec<DeriveField>>,
}

/// A derive input as the library reads it: the type's name, and its field
/// names when it is a struct with named fields.  The field types are left
/// out: the library never reads them, and as parsed tokens they carry source
/// spans, so they are not a function of the text.
pub struct DeriveView {
    pub name: Seq<char>,
    pub named_fields: Option<Seq<Seq<char>>>,
}

impl DeepView for DeriveField {
    type V = Seq<char>;

    open spec fn deep_view(&self) -> Seq<char> {
        self.name@
    }
}

impl DeepView for DeriveSummary {
    type V = DeriveView;

    open spec fn deep_view(&self) -> DeriveView {
        DeriveView { name: self.name@, named_fields: self.named_fields.deep_view() }
    }
}

/// What `syn::parse_str::<syn::DeriveInput>` makes of the text: the type's
/// name and, for a struct with named fields, the field names in order;
/// `None` when the text is not a derive input.
pub uninterp spec fn syn_parse_derive(text: Seq<char>) -> Option<DeriveView>;

/// Calls `syn::parse_str::<syn::DeriveInput>` and converts the result: the
/// identifier of the type, and, for a struct with named fields, each field's
/// identifier with its type moved over unread.  Trusted: the names are
/// `syn_parse_derive` of the text, which holds as syn's parser depends on
/// nothing but the text it is given; nothing is stated of the types.
#[verifier::external_body]
fn parse_derive(text: &str) -> (res: Option<DeriveSummary>)
    ensures
        res.deep_view() == syn_parse_derive(text@),
{
    let input = syn::parse_str::<syn::DeriveInput>(text).ok()?;
    let named_fields = match input.data {
        syn::Data::Struct(syn::DataStruct { fields: syn::Fields::Named(named), .. }) => Some(
            named.named.into_iter().map(|f| DeriveField {
                name: f.ident.map(|i| i.to_string()).unwrap_or_default(),
                ty: f.ty,
            }).collect(),
        ),
        _ => None,
    };
    Some(DeriveSummary { name: input.ident.to_string(), named_fields })
}

/// What the derive generates for one entity: its name, its fields, and the
/// Column variant each field's condition helpers compare against.
#[derive(Debug)]
pub struct CausticsImplPlan {
    pub entity_name: String,
    pub fields: Vec<DeriveField>,
    pub column_variants: Vec<String>,
}

/// Why the derive cannot plan an entity.
#[derive(Debug)]
pub enum CausticsImplError {
    /// The input does not parse as a struct, enum or union definition.
    NotDeriveInput,
    /// The named type is not a struct with named fields.
    NotNamedStruct(String),
}

/// The names in PascalCase, in order.
fn pascal_names(fields: &Vec<DeriveField>) -> (res: Vec<String>)
    ensures
        res.deep_view() == fields.deep_view().map_values(|f: Seq<char>| heck_pascal_case(f)),
{
    let mut res: Vec<String> = Vec::new();
    let mut i: usize = 0;
    while i < fields.len()
        invariant
            i <= fields.len(),
            res.len() == i,
            forall|k: int| 0 <= k < i ==> (#[trigger] res[k])@ == heck_pascal_case(fields[k].name@),
        decreases fields.len() - i,
    {
        res.push(pascal_case(fields[i].name.as_str()));
        i = i + 1;
    }
    assert(res.deep_view() =~= fields.deep_view().map_values(|f: Seq<char>| heck_pascal_case(f)));
    res
}

/// Plans the derive's output for the text of its input: the entity's name
/// and fields, with each field's Column variant (its name in PascalCase).
/// It fails when the text is not a derive input, or names a type that is not
/// a struct with named fields.
pub fn plan_caustics_impl(input_text: &str) -> (res: Result<CausticsImplPlan, CausticsImplError>)
    ensures
        syn_parse_derive(input_text@) is None <==> res matches Err(CausticsImplError::NotDeriveInput),
        syn_parse_derive(input_text@) matches Some(d) ==> match d.named_fields {
            Some(fs) => res matches Ok(p) && p.entity_name@ == d.name && p.fields.deep_view() == fs
                && p.column_variants.deep_view() == fs.map_values(|f: Seq<char>| heck_pascal_case(f)),
            None => res matches Err(CausticsImplError::NotNamedStruct(n)) && n@ == d.name,
        },
{
    match parse_derive(input_text) {
        None => Err(CausticsImplError::NotDeriveInput),
        Some(summary) => {
            let DeriveSummary { name, named_fields } = summary;
            match named_fields {
                None => Err(CausticsImplError::NotNamedStruct(name)),
                Some(fields) => {
                    let column_variants = pascal_names(&fields);
                    Ok(CausticsImplPlan { entity_name: name, fields, column_variants })
                },
            }
        },
    }
}

/// Records an entity's name among the registered names: unchanged when it
/// is there already, else added at the end.  The names thus stay free of
/// duplicates and form the old set with `name` inserted.
pub fn register(names: &mut Vec<String>, name: String)
    ensures
        old(names).deep_view().contains(name@) ==> final(names).deep_view() == old(names).deep_view(),
        !old(names).deep_view().contains(name@) ==> final(names).deep_view() == old(names).deep_view().push(name@),
        final(names).deep_view().to_set() == old(names).deep_view().to_set().insert(name@),
        old(names).deep_view().no_duplicates() ==> final(names).deep_view().no_duplicates(),
{
    let mut i: usize = 0;
    while i < names.len()
        invariant
            i <= names.len(),
            names.deep_view() == old(names).deep_view(),
            forall|k: int| 0 <= k < i ==> names.deep_view()[k] != name@,
        decreases names.len() - i,
    {
        if same_text(names[i].as_str(), name.as_str()) {
            assert(names.deep_view()[i as int] == name@);
            assert(old(names).deep_view().contains(name@));
            assert(old(names).deep_view().to_set().insert(name@) =~= old(names).deep_view().to_set());
            return;
        }
        i = i + 1;
    }
    let ghost before = names.deep_view();
    names.push(name);
    assert(names.deep_view() =~= before.push(name@));
    proof {
        before.lemma_push_to_set_commute(name@);
    }
    assert(names.deep_view().to_set() =~= before.to_set().insert(name@));
}

/// The client's accessor name of each registered entity: its name in
/// lowercase, in order.
pub fn client_method_names(entity_names: &Vec<String>) -> (res: Vec<String>)
    ensures
        res.deep_view() == entity_names.deep_view().map_values(|n: Seq<char>| std_lowercase(n)),
{
    let mut res: Vec<String> = Vec::new();
    let mut i: usize = 0;
    while i < entity_names.len()
        invariant
            i <= entity_names.len(),
            res.len() == i,
            forall|k: int| 0 <= k < i ==> (#[trigger] res[k])@ == std_lowercase(entity_names[k]@),
        decreases entity_names.len() - i,
    {
        res.push(lowercase(entity_names[i].as_str()));
        i = i + 1;
    }
    assert(res.deep_view() =~= entity_names.deep_view().map_values(|n: Seq<char>| std_lowercase(n)));
    res
}

} // verus!
