//! Entity metadata: fields, relations and the names derived from them.
//!
//! This module also holds the single-key relation model, in which every
//! relation variant carries at most one foreign key, read from `from`, `to`,
//! `column`, `primary_key` and `nullable` arguments.

pub mod name_resolution;
pub mod types;
pub mod relation_extraction;
pub mod table_name;
pub mod relation_submodules;
pub mod code_gen;
pub mod entity_plan;
pub mod field_plan;
pub mod fetcher_plan;

use vstd::prelude::*;
use crate::attrs::{
    find_field, find_field_spec, ident_is, ident_matches, is_option, is_option_type,
    sea_orm_args, sea_orm_args_of, Attribute, AttributeView, FieldType, FieldTypeView, MetaItem,
    MetaItemView, ModelField, ModelFieldView, RelationVariant, RelationVariantView,
};
use crate::entity::relation_extraction::{
    attr_targets_parse, copy_field_type, copy_path, item_targets_parse, names_target,
    parse_target_path, relation_targets_parse, target_of, unique_param_segment, variant_targets_parse,
};
use crate::entity::types::{no_arguments, PathSegment, PathView, TargetPath};
use crate::naming::{heck_snake_case, snake_case};
use crate::text::{last_piece, last_split_piece, second_piece, second_split_piece};

verus! {

/// A scalar field of an entity.
#[derive(Debug, Clone)]
pub struct Field {
    pub name: String,
    pub ty: String,
    pub is_optional: bool,
    pub is_primary_key: bool,
    pub is_created_at: bool,
    pub is_updated_at: bool,
    pub column_name: Option<String>,
}

/// The kind of a single-key relation.
#[derive(Debug, Clone, Copy, PartialEq, Eq, Structural)]
pub enum RelationKind {
    HasMany,
    BelongsTo,
}

/// A relation with at most one foreign key.
#[derive(Debug, Clone)]
pub struct Relation {
    pub name: String,
    pub target: TargetPath,
    pub kind: RelationKind,
    pub foreign_key_field: Option<String>,
    pub foreign_key_type: Option<FieldType>,
    pub target_unique_param: Option<TargetPath>,
    pub is_nullable: bool,
    pub foreign_key_column: Option<String>,
    pub primary_key_field: Option<String>,
    pub current_table_name: Option<String>,
    pub target_table_name: Option<String>,
}

pub struct RelationView {
    pub name: Seq<char>,
    pub target: PathView,
    pub kind: RelationKind,
    pub foreign_key_field: Option<Seq<char>>,
    pub foreign_key_type: Option<FieldTypeView>,
    pub target_unique_param: Option<PathView>,
    pub is_nullable: bool,
    pub foreign_key_column: Option<Seq<char>>,
    pub primary_key_field: Option<Seq<char>>,
    pub current_table_name: Option<Seq<char>>,
    pub target_table_name: Option<Seq<char>>,
}

impl DeepView for RelationKind {
    type V = RelationKind;

    open spec fn deep_view(&self) -> RelationKind {
        *self
    }
}

impl DeepView for Relation {
    type V = RelationView;

    open spec fn deep_view(&self) -> RelationView {
        RelationView {
            name: self.name@,
            target: self.target.deep_view(),
            kind: self.kind,
            foreign_key_field: self.foreign_key_field.deep_view(),
            foreign_key_type: self.foreign_key_type.deep_view(),
            target_unique_param: self.target_unique_param.deep_view(),
            is_nullable: self.is_nullable,
            foreign_key_column: self.foreign_key_column.deep_view(),
            primary_key_field: self.primary_key_field.deep_view(),
            current_table_name: self.current_table_name.deep_view(),
            target_table_name: self.target_table_name.deep_view(),
        }
    }
}

/// What the arguments of one variant have given so far.
pub struct VariantScan {
    pub name: Option<Seq<char>>,
    pub target: Option<PathView>,
    pub kind: Option<RelationKind>,
    pub foreign_key_field: Option<Seq<char>>,
    pub foreign_key_type: Option<FieldTypeView>,
    pub is_nullable: bool,
    pub foreign_key_column: Option<Seq<char>>,
    pub primary_key_field: Option<Seq<char>>,
}

pub open spec fn empty_scan() -> VariantScan {
    VariantScan {
        name: None,
        target: None,
        kind: None,
        foreign_key_field: None,
        foreign_key_type: None,
        is_nullable: false,
        foreign_key_column: None,
        primary_key_field: None,
    }
}

/// The scan after one argument item of the variant named `vname`.
pub open spec fn scan_flat_item(
    st: VariantScan,
    item: MetaItemView,
    vname: Seq<char>,
    fields: Seq<ModelFieldView>,
) -> VariantScan {
    match item {
        MetaItemView::NameValue { key, str_value } => if ident_is(key, "has_many"@) || ident_is(
            key,
            "belongs_to"@,
        ) {
            match str_value {
                Some(lit) => VariantScan {
                    name: Some(vname),
                    target: Some(target_of(lit)),
                    kind: Some(
                        if ident_is(key, "has_many"@) {
                            RelationKind::HasMany
                        } else {
                            RelationKind::BelongsTo
                        },
                    ),
                    ..st
                },
                None => st,
            }
        } else if ident_is(key, "from"@) {
            match str_value {
                Some(lit) => match second_piece(lit) {
                    Some(piece) => {
                        let snake = heck_snake_case(piece);
                        VariantScan {
                            foreign_key_field: Some(snake),
                            foreign_key_type: match find_field_spec(fields, snake) {
                                Some(i) => Some(fields[i].ty),
                                None => st.foreign_key_type,
                            },
                            ..st
                        }
                    },
                    None => st,
                },
                None => st,
            }
        } else if ident_is(key, "to"@) {
            match str_value {
                Some(lit) => VariantScan { foreign_key_column: Some(last_piece(lit)), ..st },
                None => st,
            }
        } else if ident_is(key, "nullable"@) {
            VariantScan { is_nullable: true, ..st }
        } else if ident_is(key, "column"@) {
            match str_value {
                Some(lit) => VariantScan { foreign_key_column: Some(lit), ..st },
                None => st,
            }
        } else if ident_is(key, "primary_key"@) {
            match str_value {
                Some(lit) => VariantScan { primary_key_field: Some(lit), ..st },
                None => st,
            }
        } else {
            st
        },
        MetaItemView::Other => st,
    }
}

pub open spec fn scan_flat_items(
    st: VariantScan,
    items: Seq<MetaItemView>,
    vname: Seq<char>,
    fields: Seq<ModelFieldView>,
) -> VariantScan
    decreases items.len(),
{
    if items.len() == 0 {
        st
    } else {
        scan_flat_item(scan_flat_items(st, items.drop_last(), vname, fields), items.last(), vname, fields)
    }
}

pub open spec fn scan_flat_attrs(
    st: VariantScan,
    attrs: Seq<AttributeView>,
    vname: Seq<char>,
    fields: Seq<ModelFieldView>,
) -> VariantScan
    decreases attrs.len(),
{
    if attrs.len() == 0 {
        st
    } else {
        let prev = scan_flat_attrs(st, attrs.drop_last(), vname, fields);
        match sea_orm_args(attrs.last()) {
            Some(items) => scan_flat_items(prev, items, vname, fields),
            None => prev,
        }
    }
}

/// The relation a completed scan describes: it needs a name, a target and a
/// kind.
pub open spec fn flat_relation_of_scan(
    st: VariantScan,
    fields: Seq<ModelFieldView>,
    table: Seq<char>,
) -> Option<RelationView> {
    match (st.name, st.target, st.kind) {
        (Some(name), Some(target), Some(kind)) => Some(
            RelationView {
                name: name,
                target: target,
                kind: kind,
                foreign_key_field: st.foreign_key_field,
                foreign_key_type: st.foreign_key_type,
                target_unique_param: if st.foreign_key_field is Some {
                    Some(
                        PathView {
                            leading_colon: target.leading_colon,
                            segments: target.segments.push(unique_param_segment()),
                        },
                    )
                } else {
                    None
                },
                is_nullable: st.is_nullable || match st.foreign_key_field {
                    Some(fk) => match find_field_spec(fields, fk) {
                        Some(i) => is_option_type(fields[i].ty),
                        None => false,
                    },
                    None => false,
                },
                foreign_key_column: st.foreign_key_column,
                primary_key_field: st.primary_key_field,
                current_table_name: Some(table),
                target_table_name: Some(
                    if target.segments.len() > 0 {
                        heck_snake_case(name)
                    } else {
                        "unknown"@
                    },
                ),
            },
        ),
        _ => None,
    }
}

/// The single-key relations the variants declare, in order.
pub open spec fn flat_relations_of(
    variants: Seq<RelationVariantView>,
    fields: Seq<ModelFieldView>,
    table: Seq<char>,
) -> Seq<RelationView>
    decreases variants.len(),
{
    if variants.len() == 0 {
        Seq::empty()
    } else {
        let prev = flat_relations_of(variants.drop_last(), fields, table);
        let v = variants.last();
        match flat_relation_of_scan(
            scan_flat_attrs(empty_scan(), v.attrs, v.name, fields),
            fields,
            table,
        ) {
            Some(r) => prev.push(r),
            None => prev,
        }
    }
}

/// The scan as executable values.
struct ScanValues {
    name: Option<String>,
    target: Option<TargetPath>,
    kind: Option<RelationKind>,
    foreign_key_field: Option<String>,
    foreign_key_type: Option<FieldType>,
    is_nullable: bool,
    foreign_key_column: Option<String>,
    primary_key_field: Option<String>,
}

impl ScanValues {
    spec fn view_scan(&self) -> VariantScan {
        VariantScan {
            name: self.name.deep_view(),
            target: self.target.deep_view(),
            kind: self.kind,
            foreign_key_field: self.foreign_key_field.deep_view(),
            foreign_key_type: self.foreign_key_type.deep_view(),
            is_nullable: self.is_nullable,
            foreign_key_column: self.foreign_key_column.deep_view(),
            primary_key_field: self.primary_key_field.deep_view(),
        }
    }
}

fn scan_item(
    st: &mut ScanValues,
    item: &MetaItem,
    vname: &str,
    fields: &Vec<ModelField>,
)
    requires
        names_target(item.deep_view()) ==> crate::entity::relation_extraction::syn_parse_path(
            item.deep_view()->NameValue_str_value.unwrap(),
        ) is Some,
    ensures
        final(st).view_scan() == scan_flat_item(
            old(st).view_scan(),
            item.deep_view(),
            vname@,
            fields.deep_view(),
        ),
{
    match item {
        MetaItem::NameValue { key, str_value } => {
            if ident_matches(key, "has_many") || ident_matches(key, "belongs_to") {
                match str_value {
                    Some(lit) => {
                        st.name = Some(String::from_str(vname));
                        st.target = Some(parse_target_path(lit.as_str()));
                        st.kind = Some(
                            if ident_matches(key, "has_many") {
                                RelationKind::HasMany
                            } else {
                                RelationKind::BelongsTo
                            },
                        );
                    },
                    None => {},
                }
            } else if ident_matches(key, "from") {
                match str_value {
                    Some(lit) => {
                        // "Column::FieldName" names the foreign key field
                        match second_split_piece(lit.as_str()) {
                            Some(piece) => {
                                let snake = snake_case(piece.as_str());
                                match find_field(fields, snake.as_str()) {
                                    Some(i) => {
                                        st.foreign_key_type = Some(copy_field_type(&fields[i].ty));
                                    },
                                    None => {},
                                }
                                st.foreign_key_field = Some(snake);
                            },
                            None => {},
                        }
                    },
                    None => {},
                }
            } else if ident_matches(key, "to") {
                match str_value {
                    Some(lit) => {
                        st.foreign_key_column = Some(last_split_piece(lit.as_str()));
                    },
                    None => {},
                }
            } else if ident_matches(key, "nullable") {
                st.is_nullable = true;
            } else if ident_matches(key, "column") {
                match str_value {
                    Some(lit) => {
                        st.foreign_key_column = Some(lit.clone());
                    },
                    None => {},
                }
            } else if ident_matches(key, "primary_key") {
                match str_value {
                    Some(lit) => {
                        st.primary_key_field = Some(lit.clone());
                    },
                    None => {},
                }
            }
        },
        MetaItem::Other => {},
    }
}

fn scan_attrs(st: &mut ScanValues, attrs: &Vec<Attribute>, vname: &str, fields: &Vec<ModelField>)
    requires
        attr_targets_parse(attrs.deep_view()),
    ensures
        final(st).view_scan() == scan_flat_attrs(
            old(st).view_scan(),
            attrs.deep_view(),
            vname@,
            fields.deep_view(),
        ),
{
    let ghost st0 = st.view_scan();
    let mut j: usize = 0;
    while j < attrs.len()
        invariant
            j <= attrs.len(),
            attr_targets_parse(attrs.deep_view()),
            st.view_scan() == scan_flat_attrs(
                st0,
                attrs.deep_view().take(j as int),
                vname@,
                fields.deep_view(),
            ),
        decreases attrs.len() - j,
    {
        assert(attrs.deep_view().take(j + 1).drop_last() =~= attrs.deep_view().take(j as int));
        assert(attrs.deep_view().take(j + 1).last() == attrs.deep_view()[j as int]);
        match sea_orm_args_of(&attrs[j]) {
            Some(items) => {
                assert(sea_orm_args(attrs.deep_view()[j as int]) == Some(items.deep_view()));
                assert(item_targets_parse(items.deep_view()));
                let ghost before = st.view_scan();
                let mut k: usize = 0;
                while k < items.len()
                    invariant
                        k <= items.len(),
                        item_targets_parse(items.deep_view()),
                        st.view_scan() == scan_flat_items(
                            before,
                            items.deep_view().take(k as int),
                            vname@,
                            fields.deep_view(),
                        ),
                    decreases items.len() - k,
                {
                    assert(items.deep_view().take(k + 1).drop_last() =~= items.deep_view().take(
                        k as int,
                    ));
                    assert(items.deep_view().take(k + 1).last() == items.deep_view()[k as int]);
                    assert(names_target(items.deep_view()[k as int]) ==> crate::entity::relation_extraction::syn_parse_path(
                        items.deep_view()[k as int]->NameValue_str_value.unwrap(),
                    ) is Some);
                    scan_item(st, &items[k], vname, fields);
                    k = k + 1;
                }
                assert(items.deep_view().take(items.len() as int) =~= items.deep_view());
            },
            None => {},
        }
        j = j + 1;
    }
    assert(attrs.deep_view().take(attrs.len() as int) =~= attrs.deep_view());
}

fn flat_relation_of_variant(v: &RelationVariant, fields: &Vec<ModelField>, table: &str) -> (res:
    Option<Relation>)
    requires
        attr_targets_parse(v.attrs.deep_view()),
    ensures
        res.deep_view() == flat_relation_of_scan(
            scan_flat_attrs(empty_scan(), v.attrs.deep_view(), v.name@, fields.deep_view()),
            fields.deep_view(),
            table@,
        ),
{
    let mut st = ScanValues {
        name: None,
        target: None,
        kind: None,
        foreign_key_field: None,
        foreign_key_type: None,
        is_nullable: false,
        foreign_key_column: None,
        primary_key_field: None,
    };
    scan_attrs(&mut st, &v.attrs, v.name.as_str(), fields);
    match (st.name, st.target, st.kind) {
        (Some(name), Some(target), Some(kind)) => {
            // the unique-where parameter exists when there is a foreign key
            let target_unique_param = if st.foreign_key_field.is_some() {
                let mut p = copy_path(&target);
                let ghost segs = p.segments.deep_view();
                let seg = PathSegment {
                    ident: String::from_str("UniqueWhereParam"),
                    arguments: no_arguments(),
                };
                assert(seg.deep_view() == unique_param_segment());
                p.segments.push(seg);
                assert(p.segments.deep_view() =~= segs.push(unique_param_segment()));
                Some(p)
            } else {
                None
            };
            // an optional foreign key field makes the relation nullable
            let mut is_nullable = st.is_nullable;
            match &st.foreign_key_field {
                Some(fk) => {
                    match find_field(fields, fk.as_str()) {
                        Some(i) => {
                            if is_option(&fields[i].ty) {
                                is_nullable = true;
                            }
                        },
                        None => {},
                    }
                },
                None => {},
            }
            let target_table_name = if target.segments.len() > 0 {
                snake_case(name.as_str())
            } else {
                let u = String::from_str("unknown");
                u
            };
            Some(
                Relation {
                    name,
                    target,
                    kind,
                    foreign_key_field: st.foreign_key_field,
                    foreign_key_type: st.foreign_key_type,
                    target_unique_param,
                    is_nullable,
                    foreign_key_column: st.foreign_key_column,
                    primary_key_field: st.primary_key_field,
                    current_table_name: Some(String::from_str(table)),
                    target_table_name: Some(target_table_name),
                },
            )
        },
        _ => None,
    }
}

/// The single-key relations declared by the variants of a relation enum,
/// in order: one per variant that names a target with `has_many` or
/// `belongs_to`.  Every relation target must parse as a path.
pub fn extract_relations(
    variants: &Vec<RelationVariant>,
    model_fields: &Vec<ModelField>,
    current_table_name: &str,
) -> (res: Vec<Relation>)
    requires
        variant_targets_parse(variants.deep_view()),
    ensures
        res.deep_view() == flat_relations_of(
            variants.deep_view(),
            model_fields.deep_view(),
            current_table_name@,
        ),
{
    let mut relations: Vec<Relation> = Vec::new();
    let mut i: usize = 0;
    assert(relations.deep_view() =~= flat_relations_of(
        variants.deep_view().take(0),
        model_fields.deep_view(),
        current_table_name@,
    ));
    while i < variants.len()
        invariant
            i <= variants.len(),
            variant_targets_parse(variants.deep_view()),
            relations.deep_view() == flat_relations_of(
                variants.deep_view().take(i as int),
                model_fields.deep_view(),
                current_table_name@,
            ),
        decreases variants.len() - i,
    {
        assert(variants.deep_view().take(i + 1).drop_last() =~= variants.deep_view().take(
            i as int,
        ));
        assert(variants.deep_view().take(i + 1).last() == variants.deep_view()[i as int]);
        assert(attr_targets_parse(variants.deep_view()[i as int].attrs));
        match flat_relation_of_variant(&variants[i], model_fields, current_table_name) {
            Some(r) => {
                let ghost before = relations.deep_view();
                let ghost rv = r.deep_view();
                relations.push(r);
                assert(relations.deep_view() =~= before.push(rv));
            },
            None => {},
        }
        i = i + 1;
    }
    assert(variants.deep_view().take(variants.len() as int) =~= variants.deep_view());
    relations
}

/// The single-key relations declared by the variants, or `None` when a
/// relation target does not parse as a path.
pub fn try_extract_relations(
    variants: &Vec<RelationVariant>,
    model_fields: &Vec<ModelField>,
    current_table_name: &str,
) -> (res: Option<Vec<Relation>>)
    ensures
        res is Some <==> variant_targets_parse(variants.deep_view()),
        res matches Some(rels) ==> rels.deep_view() == flat_relations_of(
            variants.deep_view(),
            model_fields.deep_view(),
            current_table_name@,
        ),
{
    if relation_targets_parse(variants) {
        Some(extract_relations(variants, model_fields, current_table_name))
    } else {
        None
    }
}

/// Every single-key relation records the current table and a target table,
/// and has a unique-where parameter exactly when it has a foreign key field;
/// there are no more relations than variants.
pub proof fn lemma_flat_relations_well_formed(
    variants: Seq<RelationVariantView>,
    fields: Seq<ModelFieldView>,
    table: Seq<char>,
)
    ensures
        flat_relations_of(variants, fields, table).len() <= variants.len(),
        forall|i: int|
            0 <= i < flat_relations_of(variants, fields, table).len() ==> {
                let r = #[trigger] flat_relations_of(variants, fields, table)[i];
                &&& r.current_table_name == Some(table)
                &&& r.target_table_name is Some
                &&& (r.target_unique_param is Some <==> r.foreign_key_field is Some)
            },
    decreases variants.len(),
{
    if variants.len() > 0 {
        lemma_flat_relations_well_formed(variants.drop_last(), fields, table);
    }
}


/// A single-key relation is nullable exactly when its arguments say
/// `nullable` or its foreign key field is a model field of `Option` type:
/// without a `nullable` argument, a relation whose foreign key field is a
/// model field of another type, or is no model field, is not nullable.
pub proof fn lemma_flat_nullable(st: VariantScan, fields: Seq<ModelFieldView>, table: Seq<char>)
    requires
        st.name is Some,
        st.target is Some,
        st.kind is Some,
    ensures
        flat_relation_of_scan(st, fields, table) matches Some(r) && (r.is_nullable <==> (st.is_nullable
            || (st.foreign_key_field matches Some(fk) && find_field_spec(fields, fk) matches Some(i)
            && ident_is(fields[i].ty.last_segment, "Option"@)))),
        flat_relation_of_scan(st, fields, table) matches Some(r) && r.kind == st.kind.unwrap()
            && r.foreign_key_field == st.foreign_key_field && r.current_table_name == Some(table)
            && (r.target_unique_param is Some <==> st.foreign_key_field is Some)
            && (r.target_table_name == Some("unknown"@) || st.target.unwrap().segments.len() > 0),
{
}

} // verus!
