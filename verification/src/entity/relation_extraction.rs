//! Relation extraction: the relations of an entity, read from the
//! `#[sea_orm(belongs_to = .., has_many = .., from = .., to = ..)]`
//! attributes of the variants of its relation enum.

use vstd::prelude::*;
use crate::attrs::{
    Attribute, FieldType, ident_matches, find_field, find_field_spec, ident_is, is_option, is_option_type, sea_orm_args,
    sea_orm_args_of, AttributeView, FieldTypeView, MetaItem, MetaItemView, ModelField, ModelFieldView,
    RelationVariant, RelationVariantView,
};
use crate::entity::types::{
    no_arguments, PathSegment, PathView, Relation, RelationKind, RelationView, SegmentView, TargetPath,
};
use crate::naming::{heck_snake_case, snake_case};
use crate::text::{last_sep, lemma_last_sep_upto, rfind_sep, same_text, sep_at};

verus! {

/// What `syn::parse_str::<syn::Path>` makes of the text: whether the path
/// has a leading `::`, and the identifier of each segment; `None` when the
/// text is not a path.  The segments' generic arguments are not named.
pub uninterp spec fn syn_parse_path(s: Seq<char>) -> Option<PathView>;

/// Calls `syn::parse_str::<syn::Path>` and converts the parsed path segment
/// by segment, moving each segment's arguments over unread.  Trusted: the
/// leading `::` and the segment identifiers are `syn_parse_path` of the
/// text, which holds as syn's parser depends on nothing but the text it is
/// given; nothing is stated of the arguments.
#[verifier::external_body]
fn parse_path(s: &str) -> (res: Option<TargetPath>)
    ensures
        res.deep_view() == syn_parse_path(s@),
{
    match syn::parse_str::<syn::Path>(s) {
        Ok(p) => Some(TargetPath {
            leading_colon: p.leading_colon.is_some(),
            segments: p.segments.iter().map(|seg| PathSegment {
                ident: seg.ident.to_string(),
                arguments: seg.arguments.clone(),
            }).collect(),
        }),
        Err(_) => None,
    }
}

/// The path without a final `Entity` segment.
pub open spec fn strip_entity(p: PathView) -> PathView {
    if p.segments.len() > 0 && p.segments.last().ident == "Entity"@ {
        PathView { leading_colon: p.leading_colon, segments: p.segments.drop_last() }
    } else {
        p
    }
}

/// The target of a relation named by the text `s`.
pub open spec fn target_of(s: Seq<char>) -> PathView {
    strip_entity(syn_parse_path(s).unwrap())
}

/// The field name in a column reference: the text after the last `::`
/// ("Column::StudentId" gives "StudentId"), or all of it.
pub open spec fn field_name_of_column(s: Seq<char>) -> Seq<char> {
    match last_sep(s) {
        Some(k) => s.skip(k + 2),
        None => s,
    }
}

/// The field name in a column reference like `Column::StudentId`: the
/// Column variant after the last `::`, or the whole text.
pub fn extract_field_name(column_str: &str) -> (res: String)
    ensures
        res@ == field_name_of_column(column_str@),
{
    match rfind_sep(column_str) {
        Some(k) => {
            proof {
                lemma_last_sep_upto(column_str@, column_str@.len() - 2);
            }
            let n = column_str.unicode_len();
            let rest = column_str.substring_char(k + 2, n);
            assert(rest@ =~= column_str@.skip(k + 2));
            String::from_str(rest)
        },
        None => String::from_str(column_str),
    }
}

/// A column's field name holds no `::`, so reading the field name of a field
/// name gives it back unchanged; text without `::` is its own field name.
pub proof fn lemma_field_name_of_column(s: Seq<char>)
    ensures
        forall|i: int| !sep_at(field_name_of_column(s), i),
        field_name_of_column(field_name_of_column(s)) == field_name_of_column(s),
        (forall|i: int| !sep_at(s, i)) ==> field_name_of_column(s) == s,
{
    lemma_last_sep_upto(s, s.len() - 2);
    let f = field_name_of_column(s);
    match last_sep(s) {
        Some(k) => {
            assert forall|i: int| !sep_at(f, i) by {
                if sep_at(f, i) {
                    assert(f[i] == s[k + 2 + i]);
                    assert(f[i + 1] == s[k + 2 + i + 1]);
                    assert(sep_at(s, k + 2 + i));
                }
            }
        },
        None => {},
    }
    lemma_last_sep_upto(f, f.len() - 2);
    if (forall|i: int| !sep_at(s, i)) {
        assert(last_sep(s) is None);
    }
}

/// The path without a final `Entity` segment.
fn without_entity_segment(p: TargetPath) -> (res: TargetPath)
    ensures
        res.deep_view() == strip_entity(p.deep_view()),
{
    let mut p = p;
    let n = p.segments.len();
    if n > 0 && same_text(p.segments[n - 1].ident.as_str(), "Entity") {
        let ghost before = p.segments.deep_view();
        p.segments.pop();
        assert(p.segments.deep_view() =~= before.drop_last());
    }
    p
}

/// The relation target named by `target_str`, without a final `Entity`
/// segment ("super::post::Entity" gives `super::post`).  The text must parse
/// as a path (see `try_parse_target_path` for a caller that cannot know
/// this).
pub fn parse_target_path(target_str: &str) -> (res: TargetPath)
    requires
        syn_parse_path(target_str@) is Some,
    ensures
        res.deep_view() == strip_entity(syn_parse_path(target_str@).unwrap()),
{
    match parse_path(target_str) {
        Some(p) => without_entity_segment(p),
        None => {
            proof {
                assert(false);
            }
            TargetPath { leading_colon: false, segments: Vec::new() }
        },
    }
}

/// The relation target named by `target_str`, without a final `Entity`
/// segment; `None` when the text is not a path.
pub fn try_parse_target_path(target_str: &str) -> (res: Option<TargetPath>)
    ensures
        res is Some <==> syn_parse_path(target_str@) is Some,
        res matches Some(p) ==> p.deep_view() == strip_entity(syn_parse_path(target_str@).unwrap()),
{
    match parse_path(target_str) {
        Some(p) => Some(without_entity_segment(p)),
        None => None,
    }
}

/// What one pass over a `sea_orm` argument list has found so far.
pub struct ScanState {
    pub target: Option<PathView>,
    pub kind: RelationKind,
    pub from: Option<Seq<char>>,
    pub to: Option<Seq<char>>,
}

/// The argument item names a relation target that must parse as a path.
pub open spec fn names_target(item: MetaItemView) -> bool {
    match item {
        MetaItemView::NameValue { key, str_value } => str_value is Some && (ident_is(
            key,
            "belongs_to"@,
        ) || ident_is(key, "has_many"@)),
        MetaItemView::Other => false,
    }
}

/// Every relation target named by the items parses as a path.
pub open spec fn item_targets_parse(items: Seq<MetaItemView>) -> bool {
    forall|k: int|
        0 <= k < items.len() && names_target(#[trigger] items[k]) ==> syn_parse_path(
            items[k]->NameValue_str_value.unwrap(),
        ) is Some
}

/// Every relation target named in a `sea_orm` attribute parses as a path.
pub open spec fn attr_targets_parse(attrs: Seq<AttributeView>) -> bool {
    forall|k: int|
        0 <= k < attrs.len() ==> match sea_orm_args(#[trigger] attrs[k]) {
            Some(items) => item_targets_parse(items),
            None => true,
        }
}

/// Every relation target named by the variants parses as a path.
pub open spec fn variant_targets_parse(variants: Seq<RelationVariantView>) -> bool {
    forall|k: int| 0 <= k < variants.len() ==> attr_targets_parse(#[trigger] variants[k].attrs)
}

/// The scan state after one argument item.
pub open spec fn scan_item(st: ScanState, item: MetaItemView) -> ScanState {
    match item {
        MetaItemView::NameValue { key, str_value } => match str_value {
            Some(lit) => if ident_is(key, "belongs_to"@) {
                ScanState { target: Some(target_of(lit)), kind: RelationKind::BelongsTo, ..st }
            } else if ident_is(key, "has_many"@) {
                ScanState { target: Some(target_of(lit)), kind: RelationKind::HasMany, ..st }
            } else if ident_is(key, "from"@) {
                ScanState { from: Some(field_name_of_column(lit)), ..st }
            } else if ident_is(key, "to"@) {
                ScanState { to: Some(field_name_of_column(lit)), ..st }
            } else {
                st
            },
            None => st,
        },
        MetaItemView::Other => st,
    }
}

/// The scan state after the items, in order.
pub open spec fn scan_items(st: ScanState, items: Seq<MetaItemView>) -> ScanState
    decreases items.len(),
{
    if items.len() == 0 {
        st
    } else {
        scan_item(scan_items(st, items.drop_last()), items.last())
    }
}

/// The field of the model that a snake_case name refers to is optional.
pub open spec fn field_is_optional(fields: Seq<ModelFieldView>, name: Seq<char>) -> bool {
    match find_field_spec(fields, name) {
        Some(i) => is_option_type(fields[i].ty),
        None => false,
    }
}

/// The relation with one `from`/`to` key pair added.  For belongs-to, `from`
/// is the foreign key of this entity and `to` the target's primary key; for
/// has-many, `from` is this entity's primary key and `to` the target's
/// foreign key.
pub open spec fn add_key_pair_spec(
    rel: RelationView,
    target: PathView,
    from: Seq<char>,
    to: Seq<char>,
    fields: Seq<ModelFieldView>,
) -> RelationView {
    let from_snake = heck_snake_case(from);
    let to_snake = heck_snake_case(to);
    let keyed = if rel.kind == RelationKind::BelongsTo {
        RelationView {
            target: target,
            foreign_key_fields: rel.foreign_key_fields.push(from_snake),
            target_primary_key_fields: rel.target_primary_key_fields.push(to_snake),
            foreign_key_columns: rel.foreign_key_columns.push(from),
            target_primary_key_columns: rel.target_primary_key_columns.push(to),
            ..rel
        }
    } else {
        RelationView {
            target: target,
            foreign_key_field: Some(to_snake),
            foreign_key_column: Some(to),
            primary_key_field: Some(from_snake),
            foreign_key_fields: rel.foreign_key_fields.push(to_snake),
            foreign_key_columns: rel.foreign_key_columns.push(to),
            target_primary_key_fields: rel.target_primary_key_fields.push(from_snake),
            ..rel
        }
    };
    RelationView {
        composite_key_mapping: keyed.composite_key_mapping.push((from_snake, to_snake)),
        is_nullable: keyed.is_nullable || field_is_optional(fields, from_snake),
        ..keyed
    }
}

/// The relation after one `sea_orm` argument list: the kind follows the
/// last `belongs_to`/`has_many` item, and a complete target/from/to triple
/// adds a key pair.
pub open spec fn apply_list_spec(
    rel: RelationView,
    items: Seq<MetaItemView>,
    fields: Seq<ModelFieldView>,
) -> RelationView {
    let st = scan_items(ScanState { target: None, kind: rel.kind, from: None, to: None }, items);
    let rel1 = RelationView { kind: st.kind, ..rel };
    match (st.target, st.from, st.to) {
        (Some(target), Some(from), Some(to)) => add_key_pair_spec(rel1, target, from, to, fields),
        _ => rel1,
    }
}

/// The relation after the `sea_orm` attributes, in order.
pub open spec fn apply_attrs_spec(
    rel: RelationView,
    attrs: Seq<AttributeView>,
    fields: Seq<ModelFieldView>,
) -> RelationView
    decreases attrs.len(),
{
    if attrs.len() == 0 {
        rel
    } else {
        let prev = apply_attrs_spec(rel, attrs.drop_last(), fields);
        match sea_orm_args(attrs.last()) {
            Some(items) => apply_list_spec(prev, items, fields),
            None => prev,
        }
    }
}

/// The relation a variant starts from.
pub open spec fn initial_relation_spec(name: Seq<char>, table: Seq<char>) -> RelationView {
    RelationView {
        name: name,
        target: PathView { leading_colon: false, segments: Seq::empty() },
        kind: RelationKind::BelongsTo,
        foreign_key_field: None,
        foreign_key_type: None,
        foreign_key_column: None,
        primary_key_field: None,
        foreign_key_fields: Seq::empty(),
        foreign_key_types: Seq::empty(),
        foreign_key_columns: Seq::empty(),
        target_primary_key_fields: Seq::empty(),
        target_primary_key_columns: Seq::empty(),
        target_unique_param: None,
        is_nullable: false,
        target_entity_name: None,
        current_table_name: Some(table),
        is_composite: false,
        composite_key_mapping: Seq::empty(),
        custom_field_name: None,
        target_fk_is_optional: None,
    }
}

/// The types of the model fields that the names refer to, in order of the
/// names; names with no such field contribute nothing.
pub open spec fn field_types_of(names: Seq<Seq<char>>, fields: Seq<ModelFieldView>) -> Seq<
    FieldTypeView,
>
    decreases names.len(),
{
    if names.len() == 0 {
        Seq::empty()
    } else {
        let prev = field_types_of(names.drop_last(), fields);
        match find_field_spec(fields, names.last()) {
            Some(i) => prev.push(fields[i].ty),
            None => prev,
        }
    }
}

/// The segment naming the unique-where parameter of a target module.
pub open spec fn unique_param_segment() -> SegmentView {
    SegmentView { ident: "UniqueWhereParam"@ }
}

/// The relation completed from its key pairs; `None` when it has none.
pub open spec fn finalize_spec(rel: RelationView, fields: Seq<ModelFieldView>) -> Option<
    RelationView,
> {
    if rel.foreign_key_fields.len() == 0 {
        None
    } else {
        Some(
            RelationView {
                is_composite: rel.is_composite || rel.foreign_key_fields.len() > 1,
                foreign_key_field: Some(rel.foreign_key_fields[0]),
                primary_key_field: Some(rel.target_primary_key_fields[0]),
                foreign_key_types: rel.foreign_key_types + field_types_of(
                    rel.foreign_key_fields,
                    fields,
                ),
                foreign_key_columns: rel.foreign_key_columns + rel.foreign_key_fields,
                target_primary_key_columns: rel.target_primary_key_columns
                    + rel.target_primary_key_fields,
                target_entity_name: if rel.target.segments.len() > 0 {
                    Some(rel.target.segments.last().ident)
                } else {
                    rel.target_entity_name
                },
                target_unique_param: Some(
                    PathView {
                        leading_colon: rel.target.leading_colon,
                        segments: rel.target.segments.push(unique_param_segment()),
                    },
                ),
                ..rel
            },
        )
    }
}

/// The relation a variant declares, if it declares one.
pub open spec fn relation_of_variant_spec(
    v: RelationVariantView,
    fields: Seq<ModelFieldView>,
    table: Seq<char>,
) -> Option<RelationView> {
    finalize_spec(apply_attrs_spec(initial_relation_spec(v.name, table), v.attrs, fields), fields)
}

/// The relations the variants declare, in order.
pub open spec fn relations_of(
    variants: Seq<RelationVariantView>,
    fields: Seq<ModelFieldView>,
    table: Seq<char>,
) -> Seq<RelationView>
    decreases variants.len(),
{
    if variants.len() == 0 {
        Seq::empty()
    } else {
        let prev = relations_of(variants.drop_last(), fields, table);
        match relation_of_variant_spec(variants.last(), fields, table) {
            Some(r) => prev.push(r),
            None => prev,
        }
    }
}

/// A copy of the field type.
pub fn copy_field_type(t: &FieldType) -> (res: FieldType)
    ensures
        res.deep_view() == t.deep_view(),
{
    let last_segment = match &t.last_segment {
        Some(s) => Some(s.clone()),
        None => None,
    };
    let inner_segment = match &t.inner_segment {
        Some(s) => Some(s.clone()),
        None => None,
    };
    FieldType { text: t.text.clone(), last_segment, inner_segment }
}

/// A copy of the path.
pub fn copy_path(p: &TargetPath) -> (res: TargetPath)
    ensures
        res.deep_view() == p.deep_view(),
{
    let mut segments: Vec<PathSegment> = Vec::new();
    let mut i: usize = 0;
    while i < p.segments.len()
        invariant
            i <= p.segments.len(),
            segments.deep_view() == p.segments.deep_view().take(i as int),
        decreases p.segments.len() - i,
    {
        let seg = PathSegment {
            ident: p.segments[i].ident.clone(),
            arguments: p.segments[i].arguments.clone(),
        };
        let ghost before = segments.deep_view();
        let ghost sv = seg.deep_view();
        assert(sv == p.segments.deep_view()[i as int]);
        segments.push(seg);
        assert(segments.deep_view() =~= before.push(sv));
        assert(segments.deep_view() =~= p.segments.deep_view().take(i + 1));
        i = i + 1;
    }
    assert(p.segments.deep_view().take(p.segments.len() as int) =~= p.segments.deep_view());
    TargetPath { leading_colon: p.leading_colon, segments }
}

fn initial_relation(name: &str, table: &str) -> (res: Relation)
    ensures
        res.deep_view() == initial_relation_spec(name@, table@),
        res.foreign_key_fields.len() == 0,
        res.target_primary_key_fields.len() == 0,
{
    let res = Relation {
        name: String::from_str(name),
        target: TargetPath { leading_colon: false, segments: Vec::new() },
        kind: RelationKind::BelongsTo,
        foreign_key_field: None,
        foreign_key_type: None,
        foreign_key_column: None,
        primary_key_field: None,
        foreign_key_fields: Vec::new(),
        foreign_key_types: Vec::new(),
        foreign_key_columns: Vec::new(),
        target_primary_key_fields: Vec::new(),
        target_primary_key_columns: Vec::new(),
        target_unique_param: None,
        is_nullable: false,
        target_entity_name: None,
        current_table_name: Some(String::from_str(table)),
        is_composite: false,
        composite_key_mapping: Vec::new(),
        custom_field_name: None,
        target_fk_is_optional: None,
    };
    assert(res.target.segments.deep_view() =~= Seq::<SegmentView>::empty());
    assert(res.foreign_key_fields.deep_view() =~= Seq::<Seq<char>>::empty());
    assert(res.foreign_key_types.deep_view() =~= Seq::<FieldTypeView>::empty());
    assert(res.foreign_key_columns.deep_view() =~= Seq::<Seq<char>>::empty());
    assert(res.target_primary_key_fields.deep_view() =~= Seq::<Seq<char>>::empty());
    assert(res.target_primary_key_columns.deep_view() =~= Seq::<Seq<char>>::empty());
    assert(res.composite_key_mapping.deep_view() =~= Seq::<(Seq<char>, Seq<char>)>::empty());
    res
}

/// Appends a string to a list of strings.
fn push_string(v: &mut Vec<String>, s: String)
    ensures
        final(v).deep_view() == old(v).deep_view().push(s@),
        final(v).len() == old(v).len() + 1,
{
    v.push(s);
    assert(v.deep_view() =~= old(v).deep_view().push(s@));
}

fn add_key_pair(
    rel: &mut Relation,
    target: TargetPath,
    from: String,
    to: String,
    fields: &Vec<ModelField>,
)
    requires
        old(rel).target_primary_key_fields.len() == old(rel).foreign_key_fields.len(),
    ensures
        final(rel).deep_view() == add_key_pair_spec(
            old(rel).deep_view(),
            target.deep_view(),
            from@,
            to@,
            fields.deep_view(),
        ),
        final(rel).target_primary_key_fields.len() == final(rel).foreign_key_fields.len(),
{
    let from_snake = snake_case(from.as_str());
    let to_snake = snake_case(to.as_str());
    rel.target = target;
    if rel.kind == RelationKind::BelongsTo {
        push_string(&mut rel.foreign_key_fields, from_snake.clone());
        push_string(&mut rel.target_primary_key_fields, to_snake.clone());
        push_string(&mut rel.foreign_key_columns, from.clone());
        push_string(&mut rel.target_primary_key_columns, to.clone());
    } else {
        rel.foreign_key_field = Some(to_snake.clone());
        rel.foreign_key_column = Some(to.clone());
        rel.primary_key_field = Some(from_snake.clone());
        push_string(&mut rel.foreign_key_fields, to_snake.clone());
        push_string(&mut rel.foreign_key_columns, to.clone());
        push_string(&mut rel.target_primary_key_fields, from_snake.clone());
    }
    let ghost before = rel.composite_key_mapping.deep_view();
    rel.composite_key_mapping.push((from_snake.clone(), to_snake.clone()));
    assert(rel.composite_key_mapping.deep_view() =~= before.push((from_snake@, to_snake@)));
    // the foreign key field of the current entity decides whether the relation is nullable
    let from_field_name = snake_case(from.as_str());
    match find_field(fields, from_field_name.as_str()) {
        Some(i) => {
            if is_option(&fields[i].ty) {
                rel.is_nullable = true;
            }
        },
        None => {},
    }
}

fn apply_list(rel: &mut Relation, items: &Vec<MetaItem>, fields: &Vec<ModelField>)
    requires
        item_targets_parse(items.deep_view()),
        old(rel).target_primary_key_fields.len() == old(rel).foreign_key_fields.len(),
    ensures
        final(rel).deep_view() == apply_list_spec(
            old(rel).deep_view(),
            items.deep_view(),
            fields.deep_view(),
        ),
        final(rel).target_primary_key_fields.len() == final(rel).foreign_key_fields.len(),
{
    let ghost rel0 = rel.deep_view();
    let ghost init = ScanState { target: None, kind: rel0.kind, from: None, to: None };
    let mut target: Option<TargetPath> = None;
    let mut from_field: Option<String> = None;
    let mut to_field: Option<String> = None;
    let mut k: usize = 0;
    while k < items.len()
        invariant
            k <= items.len(),
            item_targets_parse(items.deep_view()),
            rel.deep_view() == (RelationView { kind: rel.kind, ..rel0 }),
            rel.target_primary_key_fields.len() == rel.foreign_key_fields.len(),
            (ScanState {
                target: target.deep_view(),
                kind: rel.kind,
                from: from_field.deep_view(),
                to: to_field.deep_view(),
            }) == scan_items(init, items.deep_view().take(k as int)),
        decreases items.len() - k,
    {
        let ghost item = items.deep_view()[k as int];
        assert(items.deep_view().take(k + 1).drop_last() =~= items.deep_view().take(k as int));
        assert(items.deep_view().take(k + 1).last() == item);
        match &items[k] {
            MetaItem::NameValue { key, str_value } => {
                match str_value {
                    Some(lit) => {
                        if ident_matches(key, "belongs_to") {
                            assert(names_target(item));
                            target = Some(parse_target_path(lit.as_str()));
                            rel.kind = RelationKind::BelongsTo;
                        } else if ident_matches(key, "has_many") {
                            assert(names_target(item));
                            target = Some(parse_target_path(lit.as_str()));
                            rel.kind = RelationKind::HasMany;
                        } else if ident_matches(key, "from") {
                            from_field = Some(extract_field_name(lit.as_str()));
                        } else if ident_matches(key, "to") {
                            to_field = Some(extract_field_name(lit.as_str()));
                        }
                    },
                    None => {},
                }
            },
            MetaItem::Other => {},
        }
        k = k + 1;
    }
    assert(items.deep_view().take(items.len() as int) =~= items.deep_view());
    match (target, from_field, to_field) {
        (Some(t), Some(f), Some(to)) => add_key_pair(rel, t, f, to, fields),
        _ => {},
    }
}

fn apply_attrs(rel: &mut Relation, attrs: &Vec<Attribute>, fields: &Vec<ModelField>)
    requires
        attr_targets_parse(attrs.deep_view()),
        old(rel).target_primary_key_fields.len() == old(rel).foreign_key_fields.len(),
    ensures
        final(rel).deep_view() == apply_attrs_spec(
            old(rel).deep_view(),
            attrs.deep_view(),
            fields.deep_view(),
        ),
        final(rel).target_primary_key_fields.len() == final(rel).foreign_key_fields.len(),
{
    let ghost rel0 = rel.deep_view();
    let mut j: usize = 0;
    while j < attrs.len()
        invariant
            j <= attrs.len(),
            attr_targets_parse(attrs.deep_view()),
            rel.target_primary_key_fields.len() == rel.foreign_key_fields.len(),
            rel.deep_view() == apply_attrs_spec(
                rel0,
                attrs.deep_view().take(j as int),
                fields.deep_view(),
            ),
        decreases attrs.len() - j,
    {
        assert(attrs.deep_view().take(j + 1).drop_last() =~= attrs.deep_view().take(j as int));
        assert(attrs.deep_view().take(j + 1).last() == attrs.deep_view()[j as int]);
        match sea_orm_args_of(&attrs[j]) {
            Some(items) => {
                assert(sea_orm_args(attrs.deep_view()[j as int]) == Some(items.deep_view()));
                apply_list(rel, &items, fields);
            },
            None => {},
        }
        j = j + 1;
    }
    assert(attrs.deep_view().take(attrs.len() as int) =~= attrs.deep_view());
}

fn finalize(rel: Relation, fields: &Vec<ModelField>) -> (res: Option<Relation>)
    requires
        rel.target_primary_key_fields.len() == rel.foreign_key_fields.len(),
    ensures
        res.deep_view() == finalize_spec(rel.deep_view(), fields.deep_view()),
{
    if rel.foreign_key_fields.len() == 0 {
        return None;
    }
    let ghost r0 = rel.deep_view();
    let mut rel = rel;
    // a relation keyed by more than one field is composite
    if rel.foreign_key_fields.len() > 1 {
        rel.is_composite = true;
    }
    rel.foreign_key_field = Some(rel.foreign_key_fields[0].clone());
    rel.primary_key_field = Some(rel.target_primary_key_fields[0].clone());

    // types of the foreign key fields, as the model declares them
    let ghost r1 = rel.deep_view();
    let n = rel.foreign_key_fields.len();
    let mut i: usize = 0;
    assert(r0.foreign_key_types + field_types_of(r0.foreign_key_fields.take(0), fields.deep_view())
        =~= r0.foreign_key_types);
    while i < n
        invariant
            n == rel.foreign_key_fields.len(),
            i <= n,
            r1.foreign_key_fields == r0.foreign_key_fields,
            r1.foreign_key_types == r0.foreign_key_types,
            rel.deep_view() == (RelationView {
                foreign_key_types: r0.foreign_key_types + field_types_of(
                    r0.foreign_key_fields.take(i as int),
                    fields.deep_view(),
                ),
                ..r1
            }),
        decreases n - i,
    {
        assert(r0.foreign_key_fields.take(i + 1).drop_last() =~= r0.foreign_key_fields.take(
            i as int,
        ));
        assert(r0.foreign_key_fields.take(i + 1).last() == rel.foreign_key_fields[i as int]@);
        match find_field(fields, rel.foreign_key_fields[i].as_str()) {
            Some(f) => {
                let ty = copy_field_type(&fields[f].ty);
                let ghost before = rel.foreign_key_types.deep_view();
                let ghost tv = ty.deep_view();
                rel.foreign_key_types.push(ty);
                assert(rel.foreign_key_types.deep_view() =~= before.push(tv));
            },
            None => {},
        }
        i = i + 1;
    }
    assert(r0.foreign_key_fields.take(n as int) =~= r0.foreign_key_fields);

    let ghost r2 = rel.deep_view();
    let mut i: usize = 0;
    assert(r0.foreign_key_columns + r0.foreign_key_fields.take(0) =~= r0.foreign_key_columns);
    while i < n
        invariant
            n == rel.foreign_key_fields.len(),
            i <= n,
            r2.foreign_key_fields == r0.foreign_key_fields,
            r2.foreign_key_columns == r0.foreign_key_columns,
            rel.deep_view() == (RelationView {
                foreign_key_columns: r0.foreign_key_columns + r0.foreign_key_fields.take(i as int),
                ..r2
            }),
        decreases n - i,
    {
        let c = rel.foreign_key_fields[i].clone();
        push_string(&mut rel.foreign_key_columns, c);
        assert(r0.foreign_key_columns + r0.foreign_key_fields.take(i + 1) =~= (r0.foreign_key_columns
            + r0.foreign_key_fields.take(i as int)).push(r0.foreign_key_fields[i as int]));
        i = i + 1;
    }
    assert(r0.foreign_key_fields.take(n as int) =~= r0.foreign_key_fields);

    let ghost r3 = rel.deep_view();
    let m = rel.target_primary_key_fields.len();
    let mut i: usize = 0;
    assert(r0.target_primary_key_columns + r0.target_primary_key_fields.take(0)
        =~= r0.target_primary_key_columns);
    while i < m
        invariant
            m == rel.target_primary_key_fields.len(),
            i <= m,
            r3.target_primary_key_fields == r0.target_primary_key_fields,
            r3.target_primary_key_columns == r0.target_primary_key_columns,
            rel.deep_view() == (RelationView {
                target_primary_key_columns: r0.target_primary_key_columns
                    + r0.target_primary_key_fields.take(i as int),
                ..r3
            }),
        decreases m - i,
    {
        let c = rel.target_primary_key_fields[i].clone();
        push_string(&mut rel.target_primary_key_columns, c);
        assert(r0.target_primary_key_columns + r0.target_primary_key_fields.take(i + 1)
            =~= (r0.target_primary_key_columns + r0.target_primary_key_fields.take(
            i as int,
        )).push(r0.target_primary_key_fields[i as int]));
        i = i + 1;
    }
    assert(r0.target_primary_key_fields.take(m as int) =~= r0.target_primary_key_fields);

    // the target entity is named by the last segment of the target path
    let s = rel.target.segments.len();
    if s > 0 {
        rel.target_entity_name = Some(rel.target.segments[s - 1].ident.clone());
    }

    // the unique-where parameter of the target module
    let mut unique_param_path = copy_path(&rel.target);
    let ghost segs = unique_param_path.segments.deep_view();
    let seg = PathSegment { ident: String::from_str("UniqueWhereParam"), arguments: no_arguments() };
    assert(seg.deep_view() == unique_param_segment());
    unique_param_path.segments.push(seg);
    assert(unique_param_path.segments.deep_view() =~= segs.push(unique_param_segment()));
    rel.target_unique_param = Some(unique_param_path);
    Some(rel)
}

/// The relation the variant declares, if it declares one.
fn relation_of_variant(v: &RelationVariant, fields: &Vec<ModelField>, table: &str) -> (res: Option<
    Relation,
>)
    requires
        attr_targets_parse(v.attrs.deep_view()),
    ensures
        res.deep_view() == relation_of_variant_spec(v.deep_view(), fields.deep_view(), table@),
{
    let mut rel = initial_relation(v.name.as_str(), table);
    apply_attrs(&mut rel, &v.attrs, fields);
    finalize(rel, fields)
}

/// The relations declared by the variants of a relation enum, in order:
/// one per variant that names a target (`belongs_to` or `has_many`) together
/// with `from` and `to` columns.  Every relation target must parse as a path
/// (see `try_extract_relations` for a caller that cannot know this).
pub fn extract_relations(
    variants: &Vec<RelationVariant>,
    model_fields: &Vec<ModelField>,
    current_table_name: &str,
) -> (res: Vec<Relation>)
    requires
        variant_targets_parse(variants.deep_view()),
    ensures
        res.deep_view() == relations_of(
            variants.deep_view(),
            model_fields.deep_view(),
            current_table_name@,
        ),
        res.len() <= variants.len(),
        forall|i: int|
            0 <= i < res.len() ==> extracted_well_formed(
                #[trigger] res.deep_view()[i],
                current_table_name@,
            ),
{
    proof {
        lemma_extracted_relations_well_formed(
            variants.deep_view(),
            model_fields.deep_view(),
            current_table_name@,
        );
    }
    let mut relations: Vec<Relation> = Vec::new();
    let mut i: usize = 0;
    assert(relations.deep_view() =~= relations_of(
        variants.deep_view().take(0),
        model_fields.deep_view(),
        current_table_name@,
    ));
    while i < variants.len()
        invariant
            i <= variants.len(),
            variant_targets_parse(variants.deep_view()),
            relations.deep_view() == relations_of(
                variants.deep_view().take(i as int),
                model_fields.deep_view(),
                current_table_name@,
            ),
        decreases variants.len() - i,
    {
        assert(variants.deep_view().take(i + 1).drop_last() =~= variants.deep_view().take(
            i as int,
        ));
        assert(variants.deep_view().take(i + 1).last() == variants.deep_view()[i as int]);
        assert(attr_targets_parse(variants.deep_view()[i as int].attrs));
        match relation_of_variant(&variants[i], model_fields, current_table_name) {
            Some(r) => {
                let ghost before = relations.deep_view();
                let ghost rv = r.deep_view();
                relations.push(r);
                assert(relations.deep_view() =~= before.push(rv));
            },
            None => {},
        }
        i = i + 1;
    }
    assert(variants.deep_view().take(variants.len() as int) =~= variants.deep_view());
    relations
}

/// Every relation target named by the items parses as a path.
fn items_parse(items: &Vec<MetaItem>) -> (res: bool)
    ensures
        res == item_targets_parse(items.deep_view()),
{
    let mut k: usize = 0;
    while k < items.len()
        invariant
            k <= items.len(),
            forall|j: int|
                0 <= j < k && names_target(#[trigger] items.deep_view()[j]) ==> syn_parse_path(
                    items.deep_view()[j]->NameValue_str_value.unwrap(),
                ) is Some,
        decreases items.len() - k,
    {
        match &items[k] {
            MetaItem::NameValue { key, str_value } => {
                match str_value {
                    Some(lit) => {
                        if ident_matches(key, "belongs_to") || ident_matches(key, "has_many") {
                            if try_parse_target_path(lit.as_str()).is_none() {
                                assert(names_target(items.deep_view()[k as int]));
                                return false;
                            }
                        }
                    },
                    None => {},
                }
            },
            MetaItem::Other => {},
        }
        k = k + 1;
    }
    true
}

/// Every relation target named in a `sea_orm` attribute parses as a path.
fn attrs_parse(attrs: &Vec<Attribute>) -> (res: bool)
    ensures
        res == attr_targets_parse(attrs.deep_view()),
{
    let mut j: usize = 0;
    while j < attrs.len()
        invariant
            j <= attrs.len(),
            forall|i: int|
                0 <= i < j ==> match sea_orm_args(#[trigger] attrs.deep_view()[i]) {
                    Some(items) => item_targets_parse(items),
                    None => true,
                },
        decreases attrs.len() - j,
    {
        match sea_orm_args_of(&attrs[j]) {
            Some(items) => {
                if !items_parse(&items) {
                    assert(sea_orm_args(attrs.deep_view()[j as int]) == Some(items.deep_view()));
                    return false;
                }
            },
            None => {},
        }
        j = j + 1;
    }
    true
}

/// Every relation target named by the variants parses as a path.
pub fn relation_targets_parse(variants: &Vec<RelationVariant>) -> (res: bool)
    ensures
        res == variant_targets_parse(variants.deep_view()),
{
    let mut i: usize = 0;
    while i < variants.len()
        invariant
            i <= variants.len(),
            forall|k: int|
                0 <= k < i ==> attr_targets_parse(#[trigger] variants.deep_view()[k].attrs),
        decreases variants.len() - i,
    {
        if !attrs_parse(&variants[i].attrs) {
            assert(!attr_targets_parse(variants.deep_view()[i as int].attrs));
            return false;
        }
        i = i + 1;
    }
    true
}

/// The relations declared by the variants, or `None` when a relation target
/// does not parse as a path.
pub fn try_extract_relations(
    variants: &Vec<RelationVariant>,
    model_fields: &Vec<ModelField>,
    current_table_name: &str,
) -> (res: Option<Vec<Relation>>)
    ensures
        res is Some <==> variant_targets_parse(variants.deep_view()),
        res matches Some(rels) ==> rels.deep_view() == relations_of(
            variants.deep_view(),
            model_fields.deep_view(),
            current_table_name@,
        ),
{
    if relation_targets_parse(variants) {
        Some(extract_relations(variants, model_fields, current_table_name))
    } else {
        None
    }
}

/// The key lists of a relation under construction run in lockstep, and the
/// relation is not yet marked composite.
pub open spec fn keys_in_lockstep(r: RelationView) -> bool {
    &&& r.target_primary_key_fields.len() == r.foreign_key_fields.len()
    &&& r.composite_key_mapping.len() == r.foreign_key_fields.len()
    &&& !r.is_composite
}

/// What every extracted relation satisfies: it has at least one foreign key
/// field, one target primary key field per foreign key field and one key
/// pair per field; its single-field keys are the first of those lists; it is
/// composite exactly when it has more than one key; it records the current
/// table; and its unique-where parameter is the target path followed by
/// `UniqueWhereParam`.
pub open spec fn extracted_well_formed(r: RelationView, table: Seq<char>) -> bool {
    &&& r.foreign_key_fields.len() > 0
    &&& r.target_primary_key_fields.len() == r.foreign_key_fields.len()
    &&& r.composite_key_mapping.len() == r.foreign_key_fields.len()
    &&& r.foreign_key_field == Some(r.foreign_key_fields[0])
    &&& r.primary_key_field == Some(r.target_primary_key_fields[0])
    &&& r.is_composite == (r.foreign_key_fields.len() > 1)
    &&& r.current_table_name == Some(table)
    &&& r.target_unique_param == Some(
        PathView {
            leading_colon: r.target.leading_colon,
            segments: r.target.segments.push(unique_param_segment()),
        },
    )
}

proof fn lemma_apply_attrs_lockstep(
    rel: RelationView,
    attrs: Seq<AttributeView>,
    fields: Seq<ModelFieldView>,
)
    requires
        keys_in_lockstep(rel),
    ensures
        keys_in_lockstep(apply_attrs_spec(rel, attrs, fields)),
        apply_attrs_spec(rel, attrs, fields).current_table_name == rel.current_table_name,
    decreases attrs.len(),
{
    if attrs.len() > 0 {
        lemma_apply_attrs_lockstep(rel, attrs.drop_last(), fields);
    }
}

/// Every relation that extraction yields is well formed, and there are no
/// more relations than variants.
pub proof fn lemma_extracted_relations_well_formed(
    variants: Seq<RelationVariantView>,
    fields: Seq<ModelFieldView>,
    table: Seq<char>,
)
    ensures
        relations_of(variants, fields, table).len() <= variants.len(),
        forall|i: int|
            0 <= i < relations_of(variants, fields, table).len() ==> extracted_well_formed(
                #[trigger] relations_of(variants, fields, table)[i],
                table,
            ),
    decreases variants.len(),
{
    if variants.len() > 0 {
        lemma_extracted_relations_well_formed(variants.drop_last(), fields, table);
        let v = variants.last();
        let init = initial_relation_spec(v.name, table);
        lemma_apply_attrs_lockstep(init, v.attrs, fields);
    }
}

/// Every extracted relation can be asked for its foreign key name, its
/// primary key name and its first foreign key column, and names its single
/// foreign key field whenever it has foreign key fields.
pub proof fn lemma_extracted_relations_name_their_keys(
    variants: Seq<RelationVariantView>,
    fields: Seq<ModelFieldView>,
    table: Seq<char>,
)
    ensures
        forall|i: int|
            0 <= i < relations_of(variants, fields, table).len() ==> {
                let r = #[trigger] relations_of(variants, fields, table)[i];
                &&& r.foreign_key_fields.len() > 0
                &&& r.target_primary_key_fields.len() > 0
                &&& r.foreign_key_field is Some
            },
{
    lemma_extracted_relations_well_formed(variants, fields, table);
}


/// Adding a `from`/`to` key pair records the pair in the key mapping as
/// (`from`, `to`) in snake_case, whatever the relation's kind.  For
/// belongs-to, `from` is this entity's foreign key and `to` the target's key;
/// for has-many, `from` is this entity's key (a target primary key field of
/// the relation) and `to` the target's foreign key.  So the new mapping pair
/// is (new foreign key field, new target key field) for belongs-to and
/// (new target key field, new foreign key field) for has-many.
pub proof fn lemma_key_pair_mapping(
    rel: RelationView,
    target: PathView,
    from: Seq<char>,
    to: Seq<char>,
    fields: Seq<ModelFieldView>,
)
    ensures
        ({
            let r = add_key_pair_spec(rel, target, from, to, fields);
            &&& r.composite_key_mapping == rel.composite_key_mapping.push(
                (heck_snake_case(from), heck_snake_case(to)),
            )
            &&& r.foreign_key_fields.len() == rel.foreign_key_fields.len() + 1
            &&& r.target_primary_key_fields.len() == rel.target_primary_key_fields.len() + 1
            &&& rel.kind == RelationKind::BelongsTo ==> r.composite_key_mapping.last() == (
                r.foreign_key_fields.last(),
                r.target_primary_key_fields.last(),
            )
            &&& rel.kind != RelationKind::BelongsTo ==> r.composite_key_mapping.last() == (
                r.target_primary_key_fields.last(),
                r.foreign_key_fields.last(),
            )
        }),
{
}

/// The key pairs of a relation as extraction keeps them: each mapping pair
/// is the matching (foreign key field, target key field) pair in one order
/// or the other.
pub open spec fn mapping_matches_keys(r: RelationView) -> bool {
    &&& r.composite_key_mapping.len() == r.foreign_key_fields.len()
    &&& r.target_primary_key_fields.len() == r.foreign_key_fields.len()
    &&& forall|k: int|
        0 <= k < r.composite_key_mapping.len() ==> (#[trigger] r.composite_key_mapping[k] == (
            r.foreign_key_fields[k],
            r.target_primary_key_fields[k],
        ) || r.composite_key_mapping[k] == (r.target_primary_key_fields[k], r.foreign_key_fields[k]))
}

proof fn lemma_apply_attrs_mapping(
    rel: RelationView,
    attrs: Seq<AttributeView>,
    fields: Seq<ModelFieldView>,
)
    requires
        mapping_matches_keys(rel),
    ensures
        mapping_matches_keys(apply_attrs_spec(rel, attrs, fields)),
    decreases attrs.len(),
{
    if attrs.len() > 0 {
        lemma_apply_attrs_mapping(rel, attrs.drop_last(), fields);
        let prev = apply_attrs_spec(rel, attrs.drop_last(), fields);
        match sea_orm_args(attrs.last()) {
            Some(items) => {
                let st = scan_items(ScanState { target: None, kind: prev.kind, from: None, to: None }, items);
                let rel1 = RelationView { kind: st.kind, ..prev };
                match (st.target, st.from, st.to) {
                    (Some(target), Some(from), Some(to)) => {
                        lemma_key_pair_mapping(rel1, target, from, to, fields);
                        let r = add_key_pair_spec(rel1, target, from, to, fields);
                        assert forall|k: int| 0 <= k < r.composite_key_mapping.len() implies (#[trigger] r.composite_key_mapping[k] == (
                            r.foreign_key_fields[k],
                            r.target_primary_key_fields[k],
                        ) || r.composite_key_mapping[k] == (r.target_primary_key_fields[k], r.foreign_key_fields[k])) by {
                            if k < prev.composite_key_mapping.len() {
                                assert(r.composite_key_mapping[k] == prev.composite_key_mapping[k]);
                                assert(r.foreign_key_fields[k] == prev.foreign_key_fields[k]);
                                assert(r.target_primary_key_fields[k] == prev.target_primary_key_fields[k]);
                            }
                        }
                    },
                    _ => {},
                }
            },
            None => {},
        }
    }
}

/// Every relation extraction yields keeps its key mapping in step with its
/// keys: one pair per foreign key field, and the k-th pair is the k-th
/// foreign key field with the k-th target key field, in one order or the
/// other.
pub proof fn lemma_extracted_mapping_matches_keys(
    variants: Seq<RelationVariantView>,
    fields: Seq<ModelFieldView>,
    table: Seq<char>,
)
    ensures
        forall|i: int|
            0 <= i < relations_of(variants, fields, table).len() ==> mapping_matches_keys(
                #[trigger] relations_of(variants, fields, table)[i],
            ),
    decreases variants.len(),
{
    if variants.len() > 0 {
        lemma_extracted_mapping_matches_keys(variants.drop_last(), fields, table);
        let v = variants.last();
        let init = initial_relation_spec(v.name, table);
        lemma_apply_attrs_mapping(init, v.attrs, fields);
        let prev = relations_of(variants.drop_last(), fields, table);
        let all = relations_of(variants, fields, table);
        let applied = apply_attrs_spec(init, v.attrs, fields);
        match relation_of_variant_spec(v, fields, table) {
            Some(r) => {
                assert(r.composite_key_mapping == applied.composite_key_mapping);
                assert(r.foreign_key_fields == applied.foreign_key_fields);
                assert(r.target_primary_key_fields == applied.target_primary_key_fields);
                assert(mapping_matches_keys(r));
                assert forall|i: int| 0 <= i < all.len() implies mapping_matches_keys(#[trigger] all[i]) by {
                    if i < prev.len() {
                        assert(all[i] == prev[i]);
                    } else {
                        assert(all[i] == r);
                    }
                }
            },
            None => {},
        }
    }
}

} // verus!
