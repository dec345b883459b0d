//! The decisions behind the code generated for an entity: which fields are
//! primary keys or unique, which relations are required when creating a row,
//! which keys a relation fetcher uses, and the like.  The generated code
//! itself is written from these by the token templates of the macro crate.

use vstd::prelude::*;
use crate::attrs::{
    find_field, find_field_from, find_field_spec, ident_is, ident_matches, is_option, is_option_type, Attribute,
    AttributeView, ModelField, ModelFieldView,
};
use crate::entity::types::{relation_field_name, Relation, RelationKind, RelationView};
use crate::naming::{
    char_uppercase, heck_pascal_case, heck_snake_case, lowercase, pascal_case, snake_case,
    std_char_uppercase, std_lowercase,
};
use crate::text::{contains_seq, contains_text};

verus! {

/// The attribute marks its field as a primary key: `#[sea_orm(...)]` whose
/// tokens mention `primary_key`, or `#[primary_key(...)]`.
pub open spec fn marks_primary_key(a: AttributeView) -> bool {
    match a {
        AttributeView::List { path_ident, tokens, .. } => (ident_is(path_ident, "sea_orm"@)
            && contains_seq(tokens, "primary_key"@)) || ident_is(path_ident, "primary_key"@),
        AttributeView::Other => false,
    }
}

/// The attribute marks its field as unique (a primary key is unique too).
pub open spec fn marks_unique(a: AttributeView) -> bool {
    match a {
        AttributeView::List { path_ident, tokens, .. } => (ident_is(path_ident, "sea_orm"@) && (
        contains_seq(tokens, "primary_key"@) || contains_seq(tokens, "unique"@))) || ident_is(
            path_ident,
            "primary_key"@,
        ) || ident_is(path_ident, "unique"@),
        AttributeView::Other => false,
    }
}

pub open spec fn is_primary_key_field_spec(f: ModelFieldView) -> bool {
    exists|i: int| 0 <= i < f.attrs.len() && marks_primary_key(#[trigger] f.attrs[i])
}

pub open spec fn is_unique_field_spec(f: ModelFieldView) -> bool {
    exists|i: int| 0 <= i < f.attrs.len() && marks_unique(#[trigger] f.attrs[i])
}

fn attr_marks_primary_key(a: &Attribute) -> (res: bool)
    ensures
        res == marks_primary_key(a.deep_view()),
{
    match a {
        Attribute::List { path_ident, tokens, .. } => {
            (ident_matches(path_ident, "sea_orm") && contains_text(tokens.as_str(), "primary_key"))
                || ident_matches(path_ident, "primary_key")
        },
        Attribute::Other => false,
    }
}

fn attr_marks_unique(a: &Attribute) -> (res: bool)
    ensures
        res == marks_unique(a.deep_view()),
{
    match a {
        Attribute::List { path_ident, tokens, .. } => {
            (ident_matches(path_ident, "sea_orm") && (contains_text(tokens.as_str(), "primary_key")
                || contains_text(tokens.as_str(), "unique"))) || ident_matches(
                path_ident,
                "primary_key",
            ) || ident_matches(path_ident, "unique")
        },
        Attribute::Other => false,
    }
}

/// The field is marked as a primary key.
pub fn is_primary_key_field(f: &ModelField) -> (res: bool)
    ensures
        res == is_primary_key_field_spec(f.deep_view()),
{
    let mut i: usize = 0;
    while i < f.attrs.len()
        invariant
            i <= f.attrs.len(),
            forall|k: int| 0 <= k < i ==> !marks_primary_key(#[trigger] f.attrs.deep_view()[k]),
        decreases f.attrs.len() - i,
    {
        if attr_marks_primary_key(&f.attrs[i]) {
            assert(marks_primary_key(f.deep_view().attrs[i as int]));
            return true;
        }
        i = i + 1;
    }
    false
}

/// The field is marked as unique or as a primary key.
pub fn is_unique_field(f: &ModelField) -> (res: bool)
    ensures
        res == is_unique_field_spec(f.deep_view()),
{
    let mut i: usize = 0;
    while i < f.attrs.len()
        invariant
            i <= f.attrs.len(),
            forall|k: int| 0 <= k < i ==> !marks_unique(#[trigger] f.attrs.deep_view()[k]),
        decreases f.attrs.len() - i,
    {
        if attr_marks_unique(&f.attrs[i]) {
            assert(marks_unique(f.deep_view().attrs[i as int]));
            return true;
        }
        i = i + 1;
    }
    false
}

/// The positions, in order, of the first `n` fields that are primary keys.
pub open spec fn primary_key_positions(fields: Seq<ModelFieldView>, n: int) -> Seq<usize>
    decreases n,
{
    if n <= 0 {
        Seq::empty()
    } else {
        let prev = primary_key_positions(fields, n - 1);
        if is_primary_key_field_spec(fields[n - 1]) {
            prev.push((n - 1) as usize)
        } else {
            prev
        }
    }
}

/// The positions, in order, of the first `n` fields that are unique.
pub open spec fn unique_positions(fields: Seq<ModelFieldView>, n: int) -> Seq<usize>
    decreases n,
{
    if n <= 0 {
        Seq::empty()
    } else {
        let prev = unique_positions(fields, n - 1);
        if is_unique_field_spec(fields[n - 1]) {
            prev.push((n - 1) as usize)
        } else {
            prev
        }
    }
}

/// The positions of the primary key fields, in field order.
pub fn primary_key_field_indices(fields: &Vec<ModelField>) -> (res: Vec<usize>)
    ensures
        res@ == primary_key_positions(fields.deep_view(), fields.len() as int),
{
    let mut res: Vec<usize> = Vec::new();
    let mut i: usize = 0;
    while i < fields.len()
        invariant
            i <= fields.len(),
            res@ == primary_key_positions(fields.deep_view(), i as int),
        decreases fields.len() - i,
    {
        if is_primary_key_field(&fields[i]) {
            res.push(i);
        }
        i = i + 1;
    }
    res
}

/// The positions of the unique fields (primary keys included), in field
/// order.
pub fn unique_field_indices(fields: &Vec<ModelField>) -> (res: Vec<usize>)
    ensures
        res@ == unique_positions(fields.deep_view(), fields.len() as int),
{
    let mut res: Vec<usize> = Vec::new();
    let mut i: usize = 0;
    while i < fields.len()
        invariant
            i <= fields.len(),
            res@ == unique_positions(fields.deep_view(), i as int),
        decreases fields.len() - i,
    {
        if is_unique_field(&fields[i]) {
            res.push(i);
        }
        i = i + 1;
    }
    res
}

/// Some relation of the entity is has-many.
pub fn is_has_many_target(relations: &Vec<Relation>) -> (res: bool)
    ensures
        res == exists|i: int|
            0 <= i < relations.len() && (#[trigger] relations[i]).kind == RelationKind::HasMany,
{
    let mut i: usize = 0;
    while i < relations.len()
        invariant
            i <= relations.len(),
            forall|k: int| 0 <= k < i ==> (#[trigger] relations[k]).kind != RelationKind::HasMany,
        decreases relations.len() - i,
    {
        if relations[i].kind == RelationKind::HasMany {
            return true;
        }
        i = i + 1;
    }
    false
}

/// The relation is a belongs-to relation with a foreign key column that is
/// nullable.
pub open spec fn nullable_belongs_to(r: RelationView) -> bool {
    r.kind == RelationKind::BelongsTo && r.foreign_key_column is Some && r.is_nullable
}

/// Some belongs-to relation of the entity has a nullable foreign key.
pub fn has_nullable_foreign_keys(relations: &Vec<Relation>) -> (res: bool)
    ensures
        res == exists|i: int|
            0 <= i < relations.len() && nullable_belongs_to(#[trigger] relations.deep_view()[i]),
{
    let mut i: usize = 0;
    while i < relations.len()
        invariant
            i <= relations.len(),
            forall|k: int| 0 <= k < i ==> !nullable_belongs_to(#[trigger] relations.deep_view()[k]),
        decreases relations.len() - i,
    {
        if relations[i].kind == RelationKind::BelongsTo && relations[i].foreign_key_column.is_some()
            && relations[i].is_nullable {
            assert(nullable_belongs_to(relations.deep_view()[i as int]));
            return true;
        }
        i = i + 1;
    }
    false
}

/// The foreign key fields a relation contributes: its list of foreign key
/// fields, or else its single foreign key field.
pub open spec fn foreign_keys_of(r: RelationView) -> Seq<Seq<char>> {
    if r.foreign_key_fields.len() > 0 {
        r.foreign_key_fields
    } else {
        match r.foreign_key_field {
            Some(f) => seq![f],
            None => Seq::empty(),
        }
    }
}

/// The foreign key fields of the relations, in order.
pub open spec fn foreign_keys_of_all(rels: Seq<RelationView>) -> Seq<Seq<char>>
    decreases rels.len(),
{
    if rels.len() == 0 {
        Seq::empty()
    } else {
        foreign_keys_of_all(rels.drop_last()) + foreign_keys_of(rels.last())
    }
}

/// The foreign key fields of all relations, in relation order.
pub fn foreign_key_field_names(relations: &Vec<Relation>) -> (res: Vec<String>)
    ensures
        res.deep_view() == foreign_keys_of_all(relations.deep_view()),
{
    let mut res: Vec<String> = Vec::new();
    let mut i: usize = 0;
    while i < relations.len()
        invariant
            i <= relations.len(),
            res.deep_view() == foreign_keys_of_all(relations.deep_view().take(i as int)),
        decreases relations.len() - i,
    {
        assert(relations.deep_view().take(i + 1).drop_last() =~= relations.deep_view().take(
            i as int,
        ));
        assert(relations.deep_view().take(i + 1).last() == relations.deep_view()[i as int]);
        let ghost before = res.deep_view();
        let r = &relations[i];
        if r.foreign_key_fields.len() > 0 {
            let mut j: usize = 0;
            while j < r.foreign_key_fields.len()
                invariant
                    j <= r.foreign_key_fields.len(),
                    res.deep_view() == before + r.foreign_key_fields.deep_view().take(j as int),
                decreases r.foreign_key_fields.len() - j,
            {
                let ghost b = res.deep_view();
                res.push(r.foreign_key_fields[j].clone());
                assert(res.deep_view() =~= b.push(r.foreign_key_fields[j as int]@));
                assert(before + r.foreign_key_fields.deep_view().take(j + 1) =~= (before
                    + r.foreign_key_fields.deep_view().take(j as int)).push(
                    r.foreign_key_fields[j as int]@,
                ));
                j = j + 1;
            }
            assert(r.foreign_key_fields.deep_view().take(r.foreign_key_fields.len() as int)
                =~= r.foreign_key_fields.deep_view());
        } else {
            match &r.foreign_key_field {
                Some(f) => {
                    res.push(f.clone());
                    assert(res.deep_view() =~= before + seq![f@]);
                },
                None => {
                    assert(res.deep_view() =~= before + Seq::<Seq<char>>::empty());
                },
            }
        }
        i = i + 1;
    }
    assert(relations.deep_view().take(relations.len() as int) =~= relations.deep_view());
    res
}

/// A belongs-to relation whose foreign key is a non-optional field of the
/// model that is not a primary key: creating a row requires it.
pub open spec fn is_required_relation_spec(r: RelationView, fields: Seq<ModelFieldView>) -> bool {
    &&& r.kind == RelationKind::BelongsTo
    &&& (r.foreign_key_fields.len() > 0 || r.foreign_key_field is Some)
    &&& {
        let first = heck_pascal_case(
            if r.foreign_key_fields.len() > 0 {
                r.foreign_key_fields[0]
            } else {
                r.foreign_key_field.unwrap()
            },
        );
        match find_field_spec(fields, heck_snake_case(first)) {
            Some(i) => !is_option_type(fields[i].ty) && !is_primary_key_field_spec(fields[i]),
            None => false,
        }
    }
}

/// Creating a row of the entity requires this relation.
pub fn is_required_relation(relation: &Relation, fields: &Vec<ModelField>) -> (res: bool)
    ensures
        res == is_required_relation_spec(relation.deep_view(), fields.deep_view()),
{
    if !(relation.kind == RelationKind::BelongsTo) {
        return false;
    }
    if !(relation.foreign_key_fields.len() > 0 || relation.foreign_key_field.is_some()) {
        return false;
    }
    let fk_field_name = relation.get_first_fk_column_name();
    let fk_field_name_snake = snake_case(fk_field_name.as_str());
    match find_field(fields, fk_field_name_snake.as_str()) {
        Some(i) => !is_option(&fields[i].ty) && !is_primary_key_field(&fields[i]),
        None => false,
    }
}

/// The field names of the required relations, in order.
pub open spec fn required_relation_names_spec(
    rels: Seq<RelationView>,
    fields: Seq<ModelFieldView>,
) -> Seq<Seq<char>>
    decreases rels.len(),
{
    if rels.len() == 0 {
        Seq::empty()
    } else {
        let prev = required_relation_names_spec(rels.drop_last(), fields);
        if is_required_relation_spec(rels.last(), fields) {
            prev.push(relation_field_name(rels.last()))
        } else {
            prev
        }
    }
}

/// The field names of the relations that creating a row requires, in order:
/// the relation arguments of the generated create function.
pub fn required_relation_names(relations: &Vec<Relation>, fields: &Vec<ModelField>) -> (res: Vec<
    String,
>)
    ensures
        res.deep_view() == required_relation_names_spec(relations.deep_view(), fields.deep_view()),
{
    let mut res: Vec<String> = Vec::new();
    let mut i: usize = 0;
    while i < relations.len()
        invariant
            i <= relations.len(),
            res.deep_view() == required_relation_names_spec(
                relations.deep_view().take(i as int),
                fields.deep_view(),
            ),
        decreases relations.len() - i,
    {
        assert(relations.deep_view().take(i + 1).drop_last() =~= relations.deep_view().take(
            i as int,
        ));
        assert(relations.deep_view().take(i + 1).last() == relations.deep_view()[i as int]);
        if is_required_relation(&relations[i], fields) {
            let name = relations[i].get_field_name();
            let ghost b = res.deep_view();
            res.push(name);
            assert(res.deep_view() =~= b.push(name@));
        }
        i = i + 1;
    }
    assert(relations.deep_view().take(relations.len() as int) =~= relations.deep_view());
    res
}

/// The first primary key field (in field order) is of a type named `Uuid`.
pub open spec fn uuid_primary_key_spec(fields: Seq<ModelFieldView>) -> bool {
    let pks = primary_key_positions(fields, fields.len() as int);
    pks.len() > 0 && ident_is(fields[pks[0] as int].ty.last_segment, "Uuid"@)
}

/// Every primary key position among the first `n` fields is below `n`.
pub proof fn lemma_primary_key_positions_bounded(fields: Seq<ModelFieldView>, n: int)
    requires
        n <= fields.len(),
    ensures
        forall|k: int|
            0 <= k < primary_key_positions(fields, n).len() ==> #[trigger] primary_key_positions(
                fields,
                n,
            )[k] < n,
    decreases n,
{
    if n > 0 {
        lemma_primary_key_positions_bounded(fields, n - 1);
        let prev = primary_key_positions(fields, n - 1);
        assert forall|k: int| 0 <= k < primary_key_positions(fields, n).len() implies #[trigger] primary_key_positions(fields, n)[k] < n by {
            if k < prev.len() {
                assert(primary_key_positions(fields, n)[k] == prev[k]);
            }
        }
    }
}

/// The generated create function gives the primary key a fresh UUID: the
/// first primary key field is of type `Uuid`.
pub fn primary_key_is_uuid(fields: &Vec<ModelField>) -> (res: bool)
    ensures
        res == uuid_primary_key_spec(fields.deep_view()),
{
    let pks = primary_key_field_indices(fields);
    proof {
        lemma_primary_key_positions_bounded(fields.deep_view(), fields.len() as int);
    }
    if pks.len() == 0 {
        return false;
    }
    let first = pks[0];
    ident_matches(&fields[first].ty.last_segment, "Uuid")
}

/// The target primary key a relation fetcher matches on: the relation's
/// primary key field if it names one; for belongs-to, otherwise the first
/// target primary key column; for has-many and has-one, otherwise the
/// current entity's primary key.  `None` when a belongs-to relation names no
/// target key at all.
pub open spec fn target_primary_key_spec(r: RelationView, current_pk: Seq<char>) -> Option<
    Seq<char>,
> {
    match r.primary_key_field {
        Some(pk) => Some(pk),
        None => if r.kind == RelationKind::BelongsTo {
            if r.target_primary_key_columns.len() > 0 {
                Some(r.target_primary_key_columns[0])
            } else {
                None
            }
        } else {
            Some(current_pk)
        },
    }
}

/// The target primary key a relation fetcher matches on; `None` when a
/// belongs-to relation names no target key.
pub fn target_primary_key(relation: &Relation, current_pk: &str) -> (res: Option<String>)
    ensures
        res.deep_view() == target_primary_key_spec(relation.deep_view(), current_pk@),
{
    match &relation.primary_key_field {
        Some(pk) => Some(pk.clone()),
        None => {
            if relation.kind == RelationKind::BelongsTo {
                if relation.target_primary_key_columns.len() > 0 {
                    Some(relation.target_primary_key_columns[0].clone())
                } else {
                    None
                }
            } else {
                Some(String::from_str(current_pk))
            }
        },
    }
}

/// The Column variant a belongs-to fetcher looks the target up by: the first
/// target primary key column, else the primary key field, in PascalCase;
/// `Id` when neither is known.
pub open spec fn belongs_to_key_column_spec(r: RelationView) -> Seq<char> {
    if r.target_primary_key_columns.len() > 0 {
        heck_pascal_case(r.target_primary_key_columns[0])
    } else {
        match r.primary_key_field {
            Some(pk) => heck_pascal_case(pk),
            None => "Id"@,
        }
    }
}

/// The Column variant a belongs-to fetcher looks the target up by.
pub fn belongs_to_key_column(relation: &Relation) -> (res: String)
    ensures
        res@ == belongs_to_key_column_spec(relation.deep_view()),
{
    if relation.target_primary_key_columns.len() > 0 {
        pascal_case(relation.target_primary_key_columns[0].as_str())
    } else {
        match &relation.primary_key_field {
            Some(pk) => pascal_case(pk.as_str()),
            None => String::from_str("Id"),
        }
    }
}

/// The name of a relation's target entity: the one recorded for it, else
/// the last segment of the target path in lowercase; `None` when the path
/// has no segment.
pub open spec fn target_entity_name_spec(r: RelationView) -> Option<Seq<char>> {
    match r.target_entity_name {
        Some(name) => Some(name),
        None => if r.target.segments.len() > 0 {
            Some(std_lowercase(r.target.segments.last().ident))
        } else {
            None
        },
    }
}

/// The name of a relation's target entity.
pub fn target_entity_name(relation: &Relation) -> (res: Option<String>)
    ensures
        res.deep_view() == target_entity_name_spec(relation.deep_view()),
{
    match &relation.target_entity_name {
        Some(name) => Some(name.clone()),
        None => {
            let n = relation.target.segments.len();
            if n > 0 {
                Some(lowercase(relation.target.segments[n - 1].ident.as_str()))
            } else {
                None
            }
        },
    }
}

/// The relation names as the query layer knows them (snake_case), in
/// order.
pub fn relation_names_snake(relations: &Vec<Relation>) -> (res: Vec<String>)
    ensures
        res.len() == relations.len(),
        forall|i: int|
            0 <= i < relations.len() ==> (#[trigger] res[i])@ == heck_snake_case(relations[i].name@),
{
    let mut res: Vec<String> = Vec::new();
    let mut i: usize = 0;
    while i < relations.len()
        invariant
            i <= relations.len(),
            res.len() == i,
            forall|k: int|
                0 <= k < i ==> (#[trigger] res[k])@ == heck_snake_case(relations[k].name@),
        decreases relations.len() - i,
    {
        res.push(snake_case(relations[i].name.as_str()));
        i = i + 1;
    }
    res
}

/// Every primary key field is a unique field, so the unique positions
/// include every primary key position.
pub proof fn lemma_primary_keys_are_unique(fields: Seq<ModelFieldView>, n: int)
    requires
        n <= fields.len(),
    ensures
        forall|i: int|
            0 <= i < fields.len() && is_primary_key_field_spec(#[trigger] fields[i])
                ==> is_unique_field_spec(fields[i]),
        forall|k: int|
            0 <= k < primary_key_positions(fields, n).len() ==> unique_positions(
                fields,
                n,
            ).contains(#[trigger] primary_key_positions(fields, n)[k]),
    decreases n,
{
    assert forall|i: int|
        0 <= i < fields.len() && is_primary_key_field_spec(#[trigger] fields[i]) implies is_unique_field_spec(
        fields[i],
    ) by {
        let j = choose|j: int| 0 <= j < fields[i].attrs.len() && marks_primary_key(#[trigger] fields[i].attrs[j]);
        assert(marks_unique(fields[i].attrs[j]));
    }
    if n > 0 {
        lemma_primary_keys_are_unique(fields, n - 1);
        let pk_prev = primary_key_positions(fields, n - 1);
        let u_prev = unique_positions(fields, n - 1);
        let u = unique_positions(fields, n);
        assert forall|k: int| 0 <= k < primary_key_positions(fields, n).len() implies u.contains(
            #[trigger] primary_key_positions(fields, n)[k],
        ) by {
            if k < pk_prev.len() {
                let x = pk_prev[k];
                assert(primary_key_positions(fields, n)[k] == x);
                assert(u_prev.contains(x));
                let w = choose|w: int| 0 <= w < u_prev.len() && u_prev[w] == x;
                assert(u[w] == x);
            } else {
                assert(is_primary_key_field_spec(fields[n - 1]));
                assert(u[u.len() - 1] == (n - 1) as usize);
            }
        }
    }
}

/// A belongs-to relation with a foreign key whose field is optional in the
/// model: it gets a `Disconnect` set parameter.
pub open spec fn is_disconnectable_spec(r: RelationView, fields: Seq<ModelFieldView>) -> bool {
    &&& r.kind == RelationKind::BelongsTo
    &&& (r.foreign_key_fields.len() > 0 || r.foreign_key_field is Some)
    &&& match find_field_spec(fields, r.foreign_key_field.unwrap()) {
        Some(i) => is_option_type(fields[i].ty),
        None => false,
    }
}

/// The relation can be disconnected (its foreign key may be set to null).
/// A relation with foreign key fields names its single foreign key field
/// too, as every extracted relation does.
pub fn is_disconnectable_relation(relation: &Relation, fields: &Vec<ModelField>) -> (res: bool)
    requires
        relation.foreign_key_fields.len() > 0 ==> relation.foreign_key_field is Some,
    ensures
        res == is_disconnectable_spec(relation.deep_view(), fields.deep_view()),
{
    if !(relation.kind == RelationKind::BelongsTo) {
        return false;
    }
    match &relation.foreign_key_field {
        Some(fk) => match find_field(fields, fk.as_str()) {
            Some(i) => is_option(&fields[i].ty),
            None => false,
        },
        None => false,
    }
}

/// The foreign key field of the child rows that a nested create on a
/// has-many or has-one relation fills: the first foreign key column, else
/// the single foreign key column, else `<current entity>_id`.
pub open spec fn nested_create_foreign_key_spec(r: RelationView, current_entity_snake: Seq<char>) -> Seq<char> {
    if r.foreign_key_columns.len() > 0 {
        r.foreign_key_columns[0]
    } else {
        match r.foreign_key_column {
            Some(c) => c,
            None => current_entity_snake + "_id"@,
        }
    }
}

/// The foreign key field of the child rows that a nested create fills.
pub fn nested_create_foreign_key(relation: &Relation, current_entity_snake: &str) -> (res: String)
    ensures
        res@ == nested_create_foreign_key_spec(relation.deep_view(), current_entity_snake@),
{
    if relation.foreign_key_columns.len() > 0 {
        relation.foreign_key_columns[0].clone()
    } else {
        match &relation.foreign_key_column {
            Some(c) => c.clone(),
            None => crate::text::concat(current_entity_snake, "_id"),
        }
    }
}

/// The field names of the has-many relations, in order.
pub open spec fn counted_relation_names_spec(rels: Seq<RelationView>) -> Seq<Seq<char>>
    decreases rels.len(),
{
    if rels.len() == 0 {
        Seq::empty()
    } else {
        let prev = counted_relation_names_spec(rels.drop_last());
        if rels.last().kind == RelationKind::HasMany {
            prev.push(relation_field_name(rels.last()))
        } else {
            prev
        }
    }
}

/// The field names of the has-many relations, in order: the fields of the
/// generated counts struct and the stems of the `<name>_count` ordering
/// functions.
pub fn counted_relation_names(relations: &Vec<Relation>) -> (res: Vec<String>)
    ensures
        res.deep_view() == counted_relation_names_spec(relations.deep_view()),
{
    let mut res: Vec<String> = Vec::new();
    let mut i: usize = 0;
    while i < relations.len()
        invariant
            i <= relations.len(),
            res.deep_view() == counted_relation_names_spec(relations.deep_view().take(i as int)),
        decreases relations.len() - i,
    {
        assert(relations.deep_view().take(i + 1).drop_last() =~= relations.deep_view().take(
            i as int,
        ));
        assert(relations.deep_view().take(i + 1).last() == relations.deep_view()[i as int]);
        if relations[i].kind == RelationKind::HasMany {
            let name = relations[i].get_field_name();
            let ghost b = res.deep_view();
            res.push(name);
            assert(res.deep_view() =~= b.push(name@));
        }
        i = i + 1;
    }
    assert(relations.deep_view().take(relations.len() as int) =~= relations.deep_view());
    res
}

/// Walks a snake_case name: every `_` is dropped and starts a new part,
/// and the first character of each part is uppercased.  The flag tells
/// whether the next character starts a part.
pub open spec fn capitalize_parts_walk(s: Seq<char>) -> (bool, Seq<char>)
    decreases s.len(),
{
    if s.len() == 0 {
        (true, Seq::empty())
    } else {
        let (starts, out) = capitalize_parts_walk(s.drop_last());
        let c = s.last();
        if c == '_' {
            (true, out)
        } else if starts {
            (false, out + std_char_uppercase(c))
        } else {
            (false, out.push(c))
        }
    }
}

/// The Column variant of a snake_case field name, as sea-orm derives it:
/// the parts between `_` with their first character uppercased, joined.
pub open spec fn column_variant_spec(field_name: Seq<char>) -> Seq<char> {
    capitalize_parts_walk(field_name).1
}

/// The Column variant of a snake_case field name ("author_id" gives
/// "AuthorId").
pub fn column_variant_name(field_name: &str) -> (res: String)
    ensures
        res@ == column_variant_spec(field_name@),
{
    let n = field_name.unicode_len();
    let mut res = String::new();
    let mut starts = true;
    let mut i: usize = 0;
    while i < n
        invariant
            n == field_name@.len(),
            i <= n,
            (starts, res@) == capitalize_parts_walk(field_name@.take(i as int)),
        decreases n - i,
    {
        assert(field_name@.take(i + 1).drop_last() =~= field_name@.take(i as int));
        assert(field_name@.take(i + 1).last() == field_name@[i as int]);
        let c = field_name.get_char(i);
        if c == '_' {
            starts = true;
        } else if starts {
            let up = char_uppercase(c);
            res.append(up.as_str());
            starts = false;
        } else {
            let one = field_name.substring_char(i, i + 1);
            assert(one@ =~= seq![c]);
            let ghost before = res@;
            res.append(one);
            assert(res@ =~= before.push(c));
            starts = false;
        }
        i = i + 1;
    }
    assert(field_name@.take(n as int) =~= field_name@);
    res
}

/// The Column variants of all fields, in field order.
pub fn column_variant_names(fields: &Vec<ModelField>) -> (res: Vec<String>)
    ensures
        res.len() == fields.len(),
        forall|i: int|
            0 <= i < fields.len() ==> (#[trigger] res[i])@ == column_variant_spec(fields[i].name@),
{
    let mut res: Vec<String> = Vec::new();
    let mut i: usize = 0;
    while i < fields.len()
        invariant
            i <= fields.len(),
            res.len() == i,
            forall|k: int|
                0 <= k < i ==> (#[trigger] res[k])@ == column_variant_spec(fields[k].name@),
        decreases fields.len() - i,
    {
        res.push(column_variant_name(fields[i].name.as_str()));
        i = i + 1;
    }
    res
}

/// `<Name>Equals`, the unique-where variant of a field or key name.
pub open spec fn equals_variant_spec(name: Seq<char>) -> Seq<char> {
    heck_pascal_case(name) + "Equals"@
}

/// The unique-where variants of the unique fields, in field order.
pub fn unique_where_variant_names(fields: &Vec<ModelField>) -> (res: Vec<String>)
    ensures
        res.len() == unique_positions(fields.deep_view(), fields.len() as int).len(),
        forall|k: int|
            0 <= k < res.len() ==> (#[trigger] res[k])@ == equals_variant_spec(
                fields.deep_view()[unique_positions(fields.deep_view(), fields.len() as int)[k] as int].name,
            ),
{
    let mut res: Vec<String> = Vec::new();
    let mut i: usize = 0;
    while i < fields.len()
        invariant
            i <= fields.len(),
            res.len() == unique_positions(fields.deep_view(), i as int).len(),
            forall|k: int|
                0 <= k < res.len() ==> (#[trigger] res[k])@ == equals_variant_spec(
                    fields.deep_view()[unique_positions(fields.deep_view(), i as int)[k] as int].name,
                ),
        decreases fields.len() - i,
    {
        let ghost prev = unique_positions(fields.deep_view(), i as int);
        if is_unique_field(&fields[i]) {
            let p = pascal_case(fields[i].name.as_str());
            let v = crate::text::concat(p.as_str(), "Equals");
            res.push(v);
            assert forall|k: int| 0 <= k < res.len() implies (#[trigger] res[k])@ == equals_variant_spec(
                fields.deep_view()[unique_positions(fields.deep_view(), i + 1)[k] as int].name,
            ) by {
                if k < prev.len() {
                    assert(unique_positions(fields.deep_view(), i + 1)[k] == prev[k]);
                }
            }
        } else {
            assert(unique_positions(fields.deep_view(), i + 1) == prev);
        }
        i = i + 1;
    }
    res
}

/// The unique-where variants other than the primary key's own
/// `<PrimaryKey>Equals`, in order.
pub open spec fn other_unique_variants_spec(variants: Seq<Seq<char>>, current_pk: Seq<char>) -> Seq<
    Seq<char>,
> {
    variants.filter(|v: Seq<char>| v != equals_variant_spec(current_pk))
}

/// The unique-where variants other than that of the current primary key.
pub fn other_unique_variant_names(variants: &Vec<String>, current_pk: &str) -> (res: Vec<String>)
    ensures
        res.deep_view() == other_unique_variants_spec(variants.deep_view(), current_pk@),
{
    let pk_pascal = pascal_case(current_pk);
    let pk_variant = crate::text::concat(pk_pascal.as_str(), "Equals");
    let ghost keep = |v: Seq<char>| v != equals_variant_spec(current_pk@);
    let mut res: Vec<String> = Vec::new();
    let mut i: usize = 0;
    while i < variants.len()
        invariant
            i <= variants.len(),
            pk_variant@ == equals_variant_spec(current_pk@),
            keep == (|v: Seq<char>| v != equals_variant_spec(current_pk@)),
            res.deep_view() == variants.deep_view().take(i as int).filter(keep),
        decreases variants.len() - i,
    {
        proof {
            reveal_with_fuel(Seq::<_>::filter, 1);
        }
        assert(variants.deep_view().take(i + 1).drop_last() =~= variants.deep_view().take(i as int));
        if variants[i] != pk_variant {
            let ghost before = res.deep_view();
            res.push(variants[i].clone());
            assert(res.deep_view() =~= before.push(variants[i as int]@));
        }
        i = i + 1;
    }
    assert(variants.deep_view().take(variants.len() as int) =~= variants.deep_view());
    res
}

/// The names in PascalCase, in order: the Column variants that the
/// per-field condition helpers of the caustics derive compare against.
pub fn pascal_case_names(names: &Vec<String>) -> (res: Vec<String>)
    ensures
        res.len() == names.len(),
        forall|i: int| 0 <= i < names.len() ==> (#[trigger] res[i])@ == heck_pascal_case(names[i]@),
{
    let mut res: Vec<String> = Vec::new();
    let mut i: usize = 0;
    while i < names.len()
        invariant
            i <= names.len(),
            res.len() == i,
            forall|k: int| 0 <= k < i ==> (#[trigger] res[k])@ == heck_pascal_case(names[k]@),
        decreases names.len() - i,
    {
        res.push(pascal_case(names[i].as_str()));
        i = i + 1;
    }
    res
}


/// Only belongs-to relations are required when creating a row, and only
/// when their foreign key field is a model field that is neither optional
/// nor a primary key.
pub proof fn lemma_required_relations_are_belongs_to(r: RelationView, fields: Seq<ModelFieldView>)
    ensures
        is_required_relation_spec(r, fields) ==> r.kind == RelationKind::BelongsTo && exists|i: int|
            0 <= i < fields.len() && !ident_is(#[trigger] fields[i].ty.last_segment, "Option"@)
                && !is_primary_key_field_spec(fields[i]),
{
    if is_required_relation_spec(r, fields) {
        let first = heck_pascal_case(
            if r.foreign_key_fields.len() > 0 {
                r.foreign_key_fields[0]
            } else {
                r.foreign_key_field.unwrap()
            },
        );
        lemma_find_field_in_range(fields, heck_snake_case(first), 0);
        let i = find_field_spec(fields, heck_snake_case(first)).unwrap();
        assert(!ident_is(fields[i].ty.last_segment, "Option"@));
    }
}

/// A found field lies among the fields.
pub proof fn lemma_find_field_in_range(fields: Seq<ModelFieldView>, name: Seq<char>, i: int)
    ensures
        find_field_from(fields, name, i) matches Some(k) ==> 0 <= k < fields.len() && k >= i
            && fields[k].name == name,
    decreases fields.len() - i,
{
    if 0 <= i < fields.len() && fields[i].name != name {
        lemma_find_field_in_range(fields, name, i + 1);
    }
}

/// A relation can be disconnected exactly when it is a belongs-to relation
/// whose single foreign key field is a model field of `Option` type.
pub proof fn lemma_disconnectable(r: RelationView, fields: Seq<ModelFieldView>)
    ensures
        is_disconnectable_spec(r, fields) ==> r.kind == RelationKind::BelongsTo && (find_field_spec(
            fields,
            r.foreign_key_field.unwrap(),
        ) matches Some(i) && ident_is(fields[i].ty.last_segment, "Option"@)),
        (r.kind == RelationKind::BelongsTo && (r.foreign_key_field matches Some(fk) && find_field_spec(
            fields,
            fk,
        ) matches Some(i) && ident_is(fields[i].ty.last_segment, "Option"@)))
            ==> is_disconnectable_spec(r, fields),
        r.kind != RelationKind::BelongsTo ==> !is_disconnectable_spec(r, fields),
{
}

/// The target key a fetcher matches on: the relation's own primary key
/// field when it names one; otherwise, for belongs-to, the first target key
/// column (none when there is none), and for has-many and has-one the
/// current entity's primary key.
pub proof fn lemma_target_primary_key(r: RelationView, current_pk: Seq<char>)
    ensures
        r.primary_key_field matches Some(p) ==> target_primary_key_spec(r, current_pk) == Some(p),
        r.primary_key_field is None && r.kind != RelationKind::BelongsTo ==> target_primary_key_spec(
            r,
            current_pk,
        ) == Some(current_pk),
        r.primary_key_field is None && r.kind == RelationKind::BelongsTo
            && r.target_primary_key_columns.len() > 0 ==> target_primary_key_spec(r, current_pk)
            == Some(r.target_primary_key_columns[0]),
        target_primary_key_spec(r, current_pk) is None <==> (r.primary_key_field is None && r.kind
            == RelationKind::BelongsTo && r.target_primary_key_columns.len() == 0),
{
}

/// A belongs-to fetcher looks the target up by the PascalCase form of the
/// first target key column, else of the relation's primary key field, else
/// by `Id`.
pub proof fn lemma_belongs_to_key_column(r: RelationView)
    ensures
        r.target_primary_key_columns.len() > 0 ==> belongs_to_key_column_spec(r) == heck_pascal_case(
            r.target_primary_key_columns[0],
        ),
        (r.target_primary_key_columns.len() == 0 && (r.primary_key_field matches Some(p)))
            ==> belongs_to_key_column_spec(r) == heck_pascal_case(r.primary_key_field.unwrap()),
        r.target_primary_key_columns.len() == 0 && r.primary_key_field is None
            ==> belongs_to_key_column_spec(r) == "Id"@,
{
}

/// A nested create fills the first foreign key column of the children, else
/// their single foreign key column, else `<entity>_id`.
pub proof fn lemma_nested_create_foreign_key(r: RelationView, entity_snake: Seq<char>)
    ensures
        r.foreign_key_columns.len() > 0 ==> nested_create_foreign_key_spec(r, entity_snake)
            == r.foreign_key_columns[0],
        (r.foreign_key_columns.len() == 0 && (r.foreign_key_column matches Some(c)))
            ==> nested_create_foreign_key_spec(r, entity_snake) == r.foreign_key_column.unwrap(),
        r.foreign_key_columns.len() == 0 && r.foreign_key_column is None
            ==> nested_create_foreign_key_spec(r, entity_snake) == entity_snake + "_id"@,
{
}

/// The counted relations are the field names of the has-many relations:
/// every name counted is that of a has-many relation, there are as many as
/// relations when all are has-many, and none when none is.
pub proof fn lemma_counted_relations(rels: Seq<RelationView>)
    ensures
        counted_relation_names_spec(rels).len() <= rels.len(),
        forall|k: int|
            0 <= k < counted_relation_names_spec(rels).len() ==> exists|j: int|
                0 <= j < rels.len() && rels[j].kind == RelationKind::HasMany && #[trigger] counted_relation_names_spec(
                    rels,
                )[k] == relation_field_name(rels[j]),
        (forall|j: int| 0 <= j < rels.len() ==> (#[trigger] rels[j]).kind == RelationKind::HasMany)
            ==> counted_relation_names_spec(rels).len() == rels.len(),
        (forall|j: int| 0 <= j < rels.len() ==> (#[trigger] rels[j]).kind != RelationKind::HasMany)
            ==> counted_relation_names_spec(rels).len() == 0,
    decreases rels.len(),
{
    if rels.len() > 0 {
        let prev = rels.drop_last();
        lemma_counted_relations(prev);
        assert(forall|j: int| 0 <= j < prev.len() ==> prev[j] == #[trigger] rels[j]);
        let c = counted_relation_names_spec(rels);
        let pc = counted_relation_names_spec(prev);
        assert forall|k: int| 0 <= k < c.len() implies exists|j: int|
            0 <= j < rels.len() && rels[j].kind == RelationKind::HasMany && #[trigger] c[k]
                == relation_field_name(rels[j]) by {
            if k < pc.len() {
                let j = choose|j: int|
                    0 <= j < prev.len() && prev[j].kind == RelationKind::HasMany && #[trigger] pc[k]
                        == relation_field_name(prev[j]);
                assert(c[k] == pc[k]);
                assert(rels[j] == prev[j]);
            } else {
                assert(c[k] == relation_field_name(rels[rels.len() - 1]));
            }
        }
    }
}

} // verus!
