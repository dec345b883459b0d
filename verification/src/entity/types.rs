//! Entity fields and relations as the code generator reads them.

use vstd::prelude::*;
use crate::attrs::{FieldType, FieldTypeView};
use crate::naming::{heck_pascal_case, inflector_plural, inflector_snake_case, inflector_snake, pascal_case, plural};
use crate::text::{join_seqs, join_strings};

verus! {

/// A scalar field of an entity.
#[derive(Debug, Clone)]
pub struct Field {
    pub name: String,
    pub ty: String,
    pub is_optional: bool,
    pub is_primary_key: bool,
    pub is_created_at: bool,
    pub is_updated_at: bool,
    pub column_name: Option<String>,
}

/// The kind of a relation, seen from the entity that declares it.
#[derive(Debug, Clone, Copy, PartialEq, Eq, Structural)]
pub enum RelationKind {
    HasMany,
    BelongsTo,
    HasOne,
}

/// `syn::PathArguments`, the generic arguments of a path segment, carried
/// through unread.
#[verifier::external_type_specification]
#[verifier::external_body]
pub struct ExPathArguments(syn::PathArguments);

/// One segment of a path: its identifier and its generic arguments, which
/// the library carries without reading them.
#[derive(Debug, Clone)]
pub struct PathSegment {
    pub ident: String,
    pub arguments: syn::PathArguments,
}

/// `Clone::clone` of `syn::PathArguments`.  Nothing is stated of the copy:
/// the library never reads the arguments.
pub assume_specification[ <syn::PathArguments as std::clone::Clone>::clone ](
    a: &syn::PathArguments,
) -> syn::PathArguments;

/// Builds `syn::PathArguments::None`, the arguments of a segment without
/// generic arguments.  Nothing is stated of it: the library never reads
/// arguments.
#[verifier::external_body]
pub(crate) fn no_arguments() -> syn::PathArguments {
    syn::PathArguments::None
}

/// A path such as `super::post`.
#[derive(Debug, Clone)]
pub struct TargetPath {
    pub leading_colon: bool,
    pub segments: Vec<PathSegment>,
}

/// A path segment as the library reads it: its identifier.  The generic
/// arguments are left out: the library never reads them, and as parsed
/// tokens they carry source spans, so they are not a function of the text.
pub struct SegmentView {
    pub ident: Seq<char>,
}

pub struct PathView {
    pub leading_colon: bool,
    pub segments: Seq<SegmentView>,
}

impl DeepView for PathSegment {
    type V = SegmentView;

    open spec fn deep_view(&self) -> SegmentView {
        SegmentView { ident: self.ident@ }
    }
}

impl DeepView for TargetPath {
    type V = PathView;

    open spec fn deep_view(&self) -> PathView {
        PathView { leading_colon: self.leading_colon, segments: self.segments.deep_view() }
    }
}

impl DeepView for RelationKind {
    type V = RelationKind;

    open spec fn deep_view(&self) -> RelationKind {
        *self
    }
}

/// A relation of an entity to a target entity.
#[derive(Debug, Clone)]
pub struct Relation {
    pub name: String,
    pub target: TargetPath,
    pub kind: RelationKind,
    // single-field view of the keys
    pub foreign_key_field: Option<String>,
    pub foreign_key_type: Option<FieldType>,
    pub foreign_key_column: Option<String>,
    pub primary_key_field: Option<String>,
    // composite foreign key fields with their types
    pub foreign_key_fields: Vec<String>,
    pub foreign_key_types: Vec<FieldType>,
    pub foreign_key_columns: Vec<String>,
    // target primary key fields
    pub target_primary_key_fields: Vec<String>,
    pub target_primary_key_columns: Vec<String>,
    pub target_unique_param: Option<TargetPath>,
    pub is_nullable: bool,
    pub target_entity_name: Option<String>,
    pub current_table_name: Option<String>,
    // composite relation metadata
    pub is_composite: bool,
    pub composite_key_mapping: Vec<(String, String)>,
    // custom field name for the relation
    pub custom_field_name: Option<String>,
    // for has_one relations: whether the target entity's foreign key is optional
    pub target_fk_is_optional: Option<bool>,
}

pub struct RelationView {
    pub name: Seq<char>,
    pub target: PathView,
    pub kind: RelationKind,
    pub foreign_key_field: Option<Seq<char>>,
    pub foreign_key_type: Option<FieldTypeView>,
    pub foreign_key_column: Option<Seq<char>>,
    pub primary_key_field: Option<Seq<char>>,
    pub foreign_key_fields: Seq<Seq<char>>,
    pub foreign_key_types: Seq<FieldTypeView>,
    pub foreign_key_columns: Seq<Seq<char>>,
    pub target_primary_key_fields: Seq<Seq<char>>,
    pub target_primary_key_columns: Seq<Seq<char>>,
    pub target_unique_param: Option<PathView>,
    pub is_nullable: bool,
    pub target_entity_name: Option<Seq<char>>,
    pub current_table_name: Option<Seq<char>>,
    pub is_composite: bool,
    pub composite_key_mapping: Seq<(Seq<char>, Seq<char>)>,
    pub custom_field_name: Option<Seq<char>>,
    pub target_fk_is_optional: Option<bool>,
}

impl DeepView for Relation {
    type V = RelationView;

    open spec fn deep_view(&self) -> RelationView {
        RelationView {
            name: self.name@,
            target: self.target.deep_view(),
            kind: self.kind,
            foreign_key_field: self.foreign_key_field.deep_view(),
            foreign_key_type: self.foreign_key_type.deep_view(),
            foreign_key_column: self.foreign_key_column.deep_view(),
            primary_key_field: self.primary_key_field.deep_view(),
            foreign_key_fields: self.foreign_key_fields.deep_view(),
            foreign_key_types: self.foreign_key_types.deep_view(),
            foreign_key_columns: self.foreign_key_columns.deep_view(),
            target_primary_key_fields: self.target_primary_key_fields.deep_view(),
            target_primary_key_columns: self.target_primary_key_columns.deep_view(),
            target_unique_param: self.target_unique_param.deep_view(),
            is_nullable: self.is_nullable,
            target_entity_name: self.target_entity_name.deep_view(),
            current_table_name: self.current_table_name.deep_view(),
            is_composite: self.is_composite,
            composite_key_mapping: self.composite_key_mapping.deep_view(),
            custom_field_name: self.custom_field_name.deep_view(),
            target_fk_is_optional: self.target_fk_is_optional,
        }
    }
}

/// The PascalCase forms of the names, joined by "And".
pub open spec fn pascal_joined(names: Seq<Seq<char>>) -> Seq<char> {
    join_seqs(names.map_values(|n: Seq<char>| heck_pascal_case(n)), "And"@)
}

/// The field name of a relation: its custom name if it has one; otherwise
/// its name in snake_case, made plural for a has-many relation.
pub open spec fn relation_field_name(r: RelationView) -> Seq<char> {
    match r.custom_field_name {
        Some(custom) => custom,
        None => if r.kind == RelationKind::HasMany {
            inflector_plural(inflector_snake_case(r.name))
        } else {
            inflector_snake_case(r.name)
        },
    }
}

/// The PascalCase forms of `names`, joined by "And".
pub fn pascal_join(names: &Vec<String>) -> (res: String)
    ensures
        res@ == pascal_joined(names.deep_view()),
{
    let mut parts: Vec<String> = Vec::new();
    let mut i: usize = 0;
    while i < names.len()
        invariant
            i <= names.len(),
            parts.len() == i,
            forall|k: int|
                0 <= k < i ==> (#[trigger] parts[k])@ == heck_pascal_case(names[k]@),
        decreases names.len() - i,
    {
        let p = pascal_case(names[i].as_str());
        parts.push(p);
        i = i + 1;
    }
    let res = join_strings(&parts, "And");
    assert(parts.deep_view() =~= names.deep_view().map_values(|n: Seq<char>| heck_pascal_case(n)));
    res
}

impl Relation {
    /// The foreign key name: every foreign key field in PascalCase, joined
    /// by "And" (a single field gives its PascalCase form alone).
    pub fn get_fk_name(&self) -> (res: String)
        requires
            self.foreign_key_fields.len() > 0,
        ensures
            res@ == pascal_joined(self.foreign_key_fields.deep_view()),
            self.foreign_key_fields.len() == 1 ==> res@ == heck_pascal_case(
                self.foreign_key_fields[0]@,
            ),
    {
        pascal_join(&self.foreign_key_fields)
    }

    /// The first foreign key field name in PascalCase (for Column enum
    /// access), taken from the single foreign key field when the list is
    /// empty.
    pub fn get_first_fk_column_name(&self) -> (res: String)
        requires
            self.foreign_key_fields.len() > 0 || self.foreign_key_field.is_some(),
        ensures
            res@ == heck_pascal_case(
                if self.foreign_key_fields.len() > 0 {
                    self.foreign_key_fields[0]@
                } else {
                    self.foreign_key_field.unwrap()@
                },
            ),
    {
        if self.foreign_key_fields.len() > 0 {
            pascal_case(self.foreign_key_fields[0].as_str())
        } else {
            match &self.foreign_key_field {
                Some(f) => pascal_case(f.as_str()),
                None => String::new(),
            }
        }
    }

    /// The primary key name: every target primary key field in PascalCase,
    /// joined by "And".
    pub fn get_pk_name(&self) -> (res: String)
        requires
            self.target_primary_key_fields.len() > 0,
        ensures
            res@ == pascal_joined(self.target_primary_key_fields.deep_view()),
            self.target_primary_key_fields.len() == 1 ==> res@ == heck_pascal_case(
                self.target_primary_key_fields[0]@,
            ),
    {
        pascal_join(&self.target_primary_key_fields)
    }

    /// The field name of this relation: the custom name if there is one,
    /// otherwise the relation name in snake_case, made plural for has-many.
    pub fn get_field_name(&self) -> (res: String)
        ensures
            res@ == relation_field_name(self.deep_view()),
    {
        match &self.custom_field_name {
            Some(custom) => custom.clone(),
            None => {
                let snake = inflector_snake(self.name.as_str());
                if self.kind == RelationKind::HasMany {
                    plural(snake.as_str())
                } else {
                    snake
                }
            },
        }
    }
}


/// A relation's field name is its custom name when it has one; otherwise
/// its name in snake_case, made plural exactly for has-many relations.
pub proof fn lemma_relation_field_name(r: RelationView)
    ensures
        r.custom_field_name matches Some(c) ==> relation_field_name(r) == c,
        r.custom_field_name is None && r.kind == RelationKind::HasMany ==> relation_field_name(r)
            == inflector_plural(inflector_snake_case(r.name)),
        r.custom_field_name is None && r.kind != RelationKind::HasMany ==> relation_field_name(r)
            == inflector_snake_case(r.name),
{
}

} // verus!
