//! Decisions on the model's fields: the kind of each field's value, the
//! primary key and how it is filled, the fields that creating a row takes,
//! the fields that get atomic numeric updates, and the unique-where
//! parameters.

use vstd::prelude::*;
use crate::attrs::{
    ident_is, ident_matches, is_option, is_option_type, Attribute, AttributeView, FieldType,
    FieldTypeView, ModelField, ModelFieldView,
};
use crate::entity::code_gen::{
    equals_variant_spec, is_primary_key_field, is_primary_key_field_spec, is_unique_field,
    is_unique_field_spec, primary_key_field_indices, primary_key_positions, unique_field_indices,
    unique_positions, unique_where_variant_names,
};
use crate::entity::code_gen::{
    foreign_key_field_names, foreign_keys_of_all, is_required_relation, is_required_relation_spec,
    primary_key_is_uuid, uuid_primary_key_spec,
};
use crate::entity::types::{pascal_join, pascal_joined, Relation, RelationKind, RelationView};
use crate::naming::heck_pascal_case;
use crate::text::{contains_seq, contains_text, same_text};

verus! {

/// The kind of a field's value (the inner type of an `Option`), which
/// decides its atomic updates and its default.
#[derive(Debug, Clone, Copy, PartialEq, Eq, Structural)]
pub enum ScalarKind {
    Integer,
    Float,
    Boolean,
    /// `DateTime<..>`, a zoned date-time.
    DateTime,
    NaiveDateTime,
    NaiveDate,
    Vec,
    /// `serde_json::Value` or `Json`.
    Json,
    Other,
}

/// The segment that names a field's value type: the type argument of an
/// `Option`, else the type itself.
pub open spec fn value_segment(ty: FieldTypeView) -> Option<Seq<char>> {
    if is_option_type(ty) {
        ty.inner_segment
    } else {
        ty.last_segment
    }
}

pub open spec fn is_integer_name(s: Seq<char>) -> bool {
    s == "i8"@ || s == "i16"@ || s == "i32"@ || s == "i64"@ || s == "i128"@ || s == "isize"@
        || s == "u8"@ || s == "u16"@ || s == "u32"@ || s == "u64"@ || s == "u128"@ || s
        == "usize"@
}

/// The kind of a value type named by its last path segment.
pub open spec fn kind_of_segment(seg: Option<Seq<char>>) -> ScalarKind {
    match seg {
        None => ScalarKind::Other,
        Some(s) => if is_integer_name(s) {
            ScalarKind::Integer
        } else if s == "f32"@ || s == "f64"@ {
            ScalarKind::Float
        } else if s == "bool"@ {
            ScalarKind::Boolean
        } else if s == "DateTime"@ {
            ScalarKind::DateTime
        } else if s == "NaiveDateTime"@ {
            ScalarKind::NaiveDateTime
        } else if s == "NaiveDate"@ {
            ScalarKind::NaiveDate
        } else if s == "Vec"@ {
            ScalarKind::Vec
        } else if s == "Value"@ || s == "Json"@ {
            ScalarKind::Json
        } else {
            ScalarKind::Other
        },
    }
}

/// The kind of a field's value.
pub open spec fn scalar_kind_spec(ty: FieldTypeView) -> ScalarKind {
    kind_of_segment(value_segment(ty))
}

fn is_integer_segment(seg: &Option<String>) -> (res: bool)
    ensures
        res == (seg.deep_view() matches Some(s) && is_integer_name(s)),
{
    ident_matches(seg, "i8") || ident_matches(seg, "i16") || ident_matches(seg, "i32")
        || ident_matches(seg, "i64") || ident_matches(seg, "i128") || ident_matches(seg, "isize")
        || ident_matches(seg, "u8") || ident_matches(seg, "u16") || ident_matches(seg, "u32")
        || ident_matches(seg, "u64") || ident_matches(seg, "u128") || ident_matches(seg, "usize")
}

fn segment_kind(seg: &Option<String>) -> (res: ScalarKind)
    ensures
        res == kind_of_segment(seg.deep_view()),
{
    if seg.is_none() {
        ScalarKind::Other
    } else if is_integer_segment(seg) {
        ScalarKind::Integer
    } else if ident_matches(seg, "f32") || ident_matches(seg, "f64") {
        ScalarKind::Float
    } else if ident_matches(seg, "bool") {
        ScalarKind::Boolean
    } else if ident_matches(seg, "DateTime") {
        ScalarKind::DateTime
    } else if ident_matches(seg, "NaiveDateTime") {
        ScalarKind::NaiveDateTime
    } else if ident_matches(seg, "NaiveDate") {
        ScalarKind::NaiveDate
    } else if ident_matches(seg, "Vec") {
        ScalarKind::Vec
    } else if ident_matches(seg, "Value") || ident_matches(seg, "Json") {
        ScalarKind::Json
    } else {
        ScalarKind::Other
    }
}

/// The kind of a field's value.
pub fn scalar_kind(ty: &FieldType) -> (res: ScalarKind)
    ensures
        res == scalar_kind_spec(ty.deep_view()),
{
    if is_option(ty) {
        segment_kind(&ty.inner_segment)
    } else {
        segment_kind(&ty.last_segment)
    }
}

/// The name of the entity's primary key: the first primary key field, or
/// `id` when no field is marked.
pub open spec fn current_primary_key_spec(fields: Seq<ModelFieldView>) -> Seq<char> {
    let pks = primary_key_positions(fields, fields.len() as int);
    if pks.len() > 0 {
        fields[pks[0] as int].name
    } else {
        "id"@
    }
}

/// The primary key is composite: more than one field is marked.
pub open spec fn composite_primary_key_spec(fields: Seq<ModelFieldView>) -> bool {
    primary_key_positions(fields, fields.len() as int).len() > 1
}

/// The attribute turns auto-increment off: `#[sea_orm(...)]` whose tokens
/// hold `auto_increment = false`.
pub open spec fn marks_no_auto_increment(a: AttributeView) -> bool {
    match a {
        AttributeView::List { path_ident, tokens } => ident_is(path_ident, "sea_orm"@) && contains_seq(
            tokens,
            "auto_increment = false"@,
        ),
        AttributeView::Other => false,
    }
}

/// The attribute asks for a default value: `#[caustics(...)]` whose tokens
/// hold `default`.
pub open spec fn marks_caustics_default(a: AttributeView) -> bool {
    match a {
        AttributeView::List { path_ident, tokens } => ident_is(path_ident, "caustics"@) && contains_seq(
            tokens,
            "default"@,
        ),
        AttributeView::Other => false,
    }
}

/// A primary key field whose auto-increment is not turned off.
pub open spec fn is_auto_increment_spec(f: ModelFieldView) -> bool {
    is_primary_key_field_spec(f) && !exists|i: int|
        0 <= i < f.attrs.len() && marks_no_auto_increment(#[trigger] f.attrs[i])
}

/// A field that the database or the create function fills by default.
pub open spec fn has_caustics_default_spec(f: ModelFieldView) -> bool {
    exists|i: int| 0 <= i < f.attrs.len() && marks_caustics_default(#[trigger] f.attrs[i])
}

fn attr_marks_no_auto_increment(a: &Attribute) -> (res: bool)
    ensures
        res == marks_no_auto_increment(a.deep_view()),
{
    match a {
        Attribute::List { path_ident, tokens } => ident_matches(path_ident, "sea_orm") && contains_text(
            tokens.as_str(),
            "auto_increment = false",
        ),
        Attribute::Other => false,
    }
}

fn attr_marks_caustics_default(a: &Attribute) -> (res: bool)
    ensures
        res == marks_caustics_default(a.deep_view()),
{
    match a {
        Attribute::List { path_ident, tokens } => ident_matches(path_ident, "caustics") && contains_text(
            tokens.as_str(),
            "default",
        ),
        Attribute::Other => false,
    }
}

/// The field is an auto-increment primary key.
pub fn is_auto_increment_field(f: &ModelField) -> (res: bool)
    ensures
        res == is_auto_increment_spec(f.deep_view()),
{
    if !is_primary_key_field(f) {
        return false;
    }
    let mut i: usize = 0;
    while i < f.attrs.len()
        invariant
            i <= f.attrs.len(),
            forall|k: int| 0 <= k < i ==> !marks_no_auto_increment(#[trigger] f.attrs.deep_view()[k]),
        decreases f.attrs.len() - i,
    {
        if attr_marks_no_auto_increment(&f.attrs[i]) {
            assert(marks_no_auto_increment(f.deep_view().attrs[i as int]));
            return false;
        }
        i = i + 1;
    }
    true
}

/// The field is marked `#[caustics(default)]`.
pub fn has_caustics_default(f: &ModelField) -> (res: bool)
    ensures
        res == has_caustics_default_spec(f.deep_view()),
{
    let mut i: usize = 0;
    while i < f.attrs.len()
        invariant
            i <= f.attrs.len(),
            forall|k: int| 0 <= k < i ==> !marks_caustics_default(#[trigger] f.attrs.deep_view()[k]),
        decreases f.attrs.len() - i,
    {
        if attr_marks_caustics_default(&f.attrs[i]) {
            assert(marks_caustics_default(f.deep_view().attrs[i as int]));
            return true;
        }
        i = i + 1;
    }
    false
}

/// The name of the entity's primary key (`id` when no field is marked).
pub fn current_primary_key(fields: &Vec<ModelField>) -> (res: String)
    ensures
        res@ == current_primary_key_spec(fields.deep_view()),
{
    let pks = primary_key_field_indices(fields);
    proof {
        crate::entity::code_gen::lemma_primary_key_positions_bounded(fields.deep_view(), fields.len() as int);
    }
    if pks.len() > 0 {
        fields[pks[0]].name.clone()
    } else {
        String::from_str("id")
    }
}

/// The names of the first `n` fields that are primary keys, in order.
pub open spec fn primary_key_names_upto(fields: Seq<ModelFieldView>, n: int) -> Seq<Seq<char>>
    decreases n,
{
    if n <= 0 {
        Seq::empty()
    } else {
        let prev = primary_key_names_upto(fields, n - 1);
        if is_primary_key_field_spec(fields[n - 1]) {
            prev.push(fields[n - 1].name)
        } else {
            prev
        }
    }
}

/// For each of the first `n` fields that is unique, whether it is a primary
/// key, in order.
pub open spec fn unique_key_flags_upto(fields: Seq<ModelFieldView>, n: int) -> Seq<bool>
    decreases n,
{
    if n <= 0 {
        Seq::empty()
    } else {
        let prev = unique_key_flags_upto(fields, n - 1);
        if is_unique_field_spec(fields[n - 1]) {
            prev.push(is_primary_key_field_spec(fields[n - 1]))
        } else {
            prev
        }
    }
}

/// The unique-where parameters of an entity.
#[derive(Debug)]
pub struct UniqueWherePlan {
    /// The positions of the unique fields (primary keys included).
    pub fields: Vec<usize>,
    /// The `<Field>Equals` variant of each unique field.
    pub variants: Vec<String>,
    /// Each unique field is a primary key, so its variant takes a key value
    /// rather than the field's type.
    pub key_typed: Vec<bool>,
    /// The variant of a composite primary key: the key fields' names in
    /// PascalCase joined by "And"; `None` unless the key is composite.
    pub composite_variant: Option<String>,
}

pub struct UniqueWherePlanView {
    pub fields: Seq<usize>,
    pub variants: Seq<Seq<char>>,
    pub key_typed: Seq<bool>,
    pub composite_variant: Option<Seq<char>>,
}

impl DeepView for UniqueWherePlan {
    type V = UniqueWherePlanView;

    open spec fn deep_view(&self) -> UniqueWherePlanView {
        UniqueWherePlanView {
            fields: self.fields@,
            variants: self.variants.deep_view(),
            key_typed: self.key_typed@,
            composite_variant: self.composite_variant.deep_view(),
        }
    }
}

pub open spec fn unique_where_plan_spec(fields: Seq<ModelFieldView>) -> UniqueWherePlanView {
    let u = unique_positions(fields, fields.len() as int);
    UniqueWherePlanView {
        fields: u,
        variants: Seq::new(u.len(), |k: int| equals_variant_spec(fields[u[k] as int].name)),
        key_typed: unique_key_flags_upto(fields, fields.len() as int),
        composite_variant: if composite_primary_key_spec(fields) {
            Some(pascal_joined(primary_key_names_upto(fields, fields.len() as int)))
        } else {
            None
        },
    }
}

/// There is one key flag per unique field.
pub proof fn lemma_unique_key_flags_len(fields: Seq<ModelFieldView>, n: int)
    ensures
        unique_key_flags_upto(fields, n).len() == unique_positions(fields, n).len(),
    decreases n,
{
    if n > 0 {
        lemma_unique_key_flags_len(fields, n - 1);
    }
}

/// The names of the primary key fields, in order.
fn primary_key_names(fields: &Vec<ModelField>) -> (res: Vec<String>)
    ensures
        res.deep_view() == primary_key_names_upto(fields.deep_view(), fields.len() as int),
{
    let mut res: Vec<String> = Vec::new();
    let mut i: usize = 0;
    while i < fields.len()
        invariant
            i <= fields.len(),
            res.deep_view() == primary_key_names_upto(fields.deep_view(), i as int),
        decreases fields.len() - i,
    {
        if is_primary_key_field(&fields[i]) {
            let ghost before = res.deep_view();
            res.push(fields[i].name.clone());
            assert(res.deep_view() =~= before.push(fields[i as int].name@));
        }
        i = i + 1;
    }
    res
}

/// The unique-where parameters: one `<Field>Equals` variant per unique
/// field, and the composite primary key's variant when the key is
/// composite.
pub fn plan_unique_where(fields: &Vec<ModelField>) -> (res: UniqueWherePlan)
    ensures
        res.deep_view() == unique_where_plan_spec(fields.deep_view()),
{
    let positions = unique_field_indices(fields);
    let variants = unique_where_variant_names(fields);
    let mut key_typed: Vec<bool> = Vec::new();
    let mut i: usize = 0;
    while i < fields.len()
        invariant
            i <= fields.len(),
            key_typed@ == unique_key_flags_upto(fields.deep_view(), i as int),
        decreases fields.len() - i,
    {
        if is_unique_field(&fields[i]) {
            key_typed.push(is_primary_key_field(&fields[i]));
        }
        i = i + 1;
    }
    let pks = primary_key_field_indices(fields);
    let composite_variant = if pks.len() > 1 {
        let names = primary_key_names(fields);
        Some(pascal_join(&names))
    } else {
        None
    };
    let plan = UniqueWherePlan { fields: positions, variants, key_typed, composite_variant };
    proof {
        let fv = fields.deep_view();
        let u = unique_positions(fv, fields.len() as int);
        assert(plan.variants.deep_view() =~= Seq::new(u.len(), |k: int| equals_variant_spec(fv[u[k] as int].name)));
    }
    plan
}

/// Some primary key field is auto-increment.
pub open spec fn has_auto_increment_key_spec(fields: Seq<ModelFieldView>) -> bool {
    exists|i: int| 0 <= i < fields.len() && is_auto_increment_spec(#[trigger] fields[i])
}

/// The create function takes the primary key fields: the key is composite,
/// or no key field is auto-increment.
pub open spec fn include_primary_keys_spec(fields: Seq<ModelFieldView>) -> bool {
    composite_primary_key_spec(fields) || !has_auto_increment_key_spec(fields)
}

/// The create function takes this field: not one with a default; a primary
/// key when keys are included and it is not auto-increment; not another
/// foreign key field (relations fill those); any other field that is not
/// optional.
pub open spec fn is_create_field_spec(
    f: ModelFieldView,
    include_primary_keys: bool,
    foreign_keys: Seq<Seq<char>>,
) -> bool {
    if has_caustics_default_spec(f) {
        false
    } else if is_primary_key_field_spec(f) {
        include_primary_keys && !is_auto_increment_spec(f)
    } else if foreign_keys.contains(f.name) {
        false
    } else {
        !is_option_type(f.ty)
    }
}

/// The positions of the first `n` fields that the create function takes.
pub open spec fn create_positions(
    fields: Seq<ModelFieldView>,
    include_primary_keys: bool,
    foreign_keys: Seq<Seq<char>>,
    n: int,
) -> Seq<usize>
    decreases n,
{
    if n <= 0 {
        Seq::empty()
    } else {
        let prev = create_positions(fields, include_primary_keys, foreign_keys, n - 1);
        if is_create_field_spec(fields[n - 1], include_primary_keys, foreign_keys) {
            prev.push((n - 1) as usize)
        } else {
            prev
        }
    }
}

/// The positions of the first `n` fields marked `#[caustics(default)]`.
pub open spec fn default_positions(fields: Seq<ModelFieldView>, n: int) -> Seq<usize>
    decreases n,
{
    if n <= 0 {
        Seq::empty()
    } else {
        let prev = default_positions(fields, n - 1);
        if has_caustics_default_spec(fields[n - 1]) {
            prev.push((n - 1) as usize)
        } else {
            prev
        }
    }
}

pub open spec fn is_date_kind(k: ScalarKind) -> bool {
    k == ScalarKind::DateTime || k == ScalarKind::NaiveDateTime || k == ScalarKind::NaiveDate
}

/// The positions of the first `n` relations that creating a row requires.
pub open spec fn required_relation_positions(
    rels: Seq<RelationView>,
    fields: Seq<ModelFieldView>,
    n: int,
) -> Seq<usize>
    decreases n,
{
    if n <= 0 {
        Seq::empty()
    } else {
        let prev = required_relation_positions(rels, fields, n - 1);
        if is_required_relation_spec(rels[n - 1], fields) {
            prev.push((n - 1) as usize)
        } else {
            prev
        }
    }
}

/// The positions of the relations that creating a row requires.
pub fn required_relation_indices(relations: &Vec<Relation>, fields: &Vec<ModelField>) -> (res: Vec<usize>)
    ensures
        res@ == required_relation_positions(relations.deep_view(), fields.deep_view(), relations.len() as int),
{
    let mut res: Vec<usize> = Vec::new();
    let mut i: usize = 0;
    while i < relations.len()
        invariant
            i <= relations.len(),
            res@ == required_relation_positions(relations.deep_view(), fields.deep_view(), i as int),
        decreases relations.len() - i,
    {
        if is_required_relation(&relations[i], fields) {
            res.push(i);
        }
        i = i + 1;
    }
    res
}

/// What the generated `Create` struct and create function hold.
#[derive(Debug)]
pub struct CreatePlan {
    /// The positions of the fields the create function takes, in order.
    pub fields: Vec<usize>,
    /// The positions of the relations it takes (the required ones), in
    /// order.
    pub relations: Vec<usize>,
    /// The primary key fields are among the fields it may take.
    pub include_primary_keys: bool,
    /// The primary key is composite.
    pub composite_primary_key: bool,
    /// The name of the primary key.
    pub primary_key: String,
    /// A fresh UUID fills an unset primary key.
    pub uuid_primary_key: bool,
    /// The positions of the fields filled by default when unset.
    pub default_fields: Vec<usize>,
    /// Some such field holds a date or time, so the current time is taken.
    pub takes_current_time: bool,
}

pub struct CreatePlanView {
    pub fields: Seq<usize>,
    pub relations: Seq<usize>,
    pub include_primary_keys: bool,
    pub composite_primary_key: bool,
    pub primary_key: Seq<char>,
    pub uuid_primary_key: bool,
    pub default_fields: Seq<usize>,
    pub takes_current_time: bool,
}

impl DeepView for CreatePlan {
    type V = CreatePlanView;

    open spec fn deep_view(&self) -> CreatePlanView {
        CreatePlanView {
            fields: self.fields@,
            relations: self.relations@,
            include_primary_keys: self.include_primary_keys,
            composite_primary_key: self.composite_primary_key,
            primary_key: self.primary_key@,
            uuid_primary_key: self.uuid_primary_key,
            default_fields: self.default_fields@,
            takes_current_time: self.takes_current_time,
        }
    }
}

pub open spec fn create_plan_spec(fields: Seq<ModelFieldView>, rels: Seq<RelationView>) -> CreatePlanView {
    let with_keys = include_primary_keys_spec(fields);
    CreatePlanView {
        fields: create_positions(fields, with_keys, foreign_keys_of_all(rels), fields.len() as int),
        relations: required_relation_positions(rels, fields, rels.len() as int),
        include_primary_keys: with_keys,
        composite_primary_key: composite_primary_key_spec(fields),
        primary_key: current_primary_key_spec(fields),
        uuid_primary_key: uuid_primary_key_spec(fields),
        default_fields: default_positions(fields, fields.len() as int),
        takes_current_time: exists|i: int|
            0 <= i < fields.len() && has_caustics_default_spec(#[trigger] fields[i]) && is_date_kind(
                scalar_kind_spec(fields[i].ty),
            ),
    }
}

/// `names` holds `name`.
fn holds_name(names: &Vec<String>, name: &str) -> (res: bool)
    ensures
        res == names.deep_view().contains(name@),
{
    let mut i: usize = 0;
    while i < names.len()
        invariant
            i <= names.len(),
            forall|k: int| 0 <= k < i ==> names.deep_view()[k] != name@,
        decreases names.len() - i,
    {
        if same_text(names[i].as_str(), name) {
            assert(names.deep_view()[i as int] == name@);
            return true;
        }
        i = i + 1;
    }
    false
}

/// What the generated `Create` struct and create function hold, for the
/// given fields and relations.
pub fn plan_create(fields: &Vec<ModelField>, relations: &Vec<Relation>) -> (res: CreatePlan)
    ensures
        res.deep_view() == create_plan_spec(fields.deep_view(), relations.deep_view()),
{
    let foreign_keys = foreign_key_field_names(relations);
    let pks = primary_key_field_indices(fields);
    let composite = pks.len() > 1;
    let mut any_auto = false;
    let mut any_time = false;
    let mut defaults: Vec<usize> = Vec::new();
    let mut i: usize = 0;
    while i < fields.len()
        invariant
            i <= fields.len(),
            any_auto == exists|k: int| 0 <= k < i && is_auto_increment_spec(#[trigger] fields.deep_view()[k]),
            any_time == exists|k: int|
                0 <= k < i && has_caustics_default_spec(#[trigger] fields.deep_view()[k]) && is_date_kind(
                    scalar_kind_spec(fields.deep_view()[k].ty),
                ),
            defaults@ == default_positions(fields.deep_view(), i as int),
        decreases fields.len() - i,
    {
        let f = &fields[i];
        let ghost fv = fields.deep_view();
        assert(fv[i as int] == f.deep_view());
        let auto = is_auto_increment_field(f);
        let has_default = has_caustics_default(f);
        let kind = scalar_kind(&f.ty);
        let timed = has_default && (kind == ScalarKind::DateTime || kind == ScalarKind::NaiveDateTime
            || kind == ScalarKind::NaiveDate);
        proof {
            assert(timed == (has_caustics_default_spec(fv[i as int]) && is_date_kind(scalar_kind_spec(fv[i as int].ty))));
            assert((exists|k: int| 0 <= k < i + 1 && is_auto_increment_spec(#[trigger] fv[k])) == (any_auto || auto)) by {
                if auto {
                    assert(is_auto_increment_spec(fv[i as int]));
                }
            }
            assert((exists|k: int|
                0 <= k < i + 1 && has_caustics_default_spec(#[trigger] fv[k]) && is_date_kind(
                    scalar_kind_spec(fv[k].ty),
                )) == (any_time || timed)) by {
                if timed {
                    assert(has_caustics_default_spec(fv[i as int]));
                }
            }
        }
        any_auto = any_auto || auto;
        any_time = any_time || timed;
        if has_default {
            defaults.push(i);
        }
        i = i + 1;
    }
    let with_keys = composite || !any_auto;
    let mut positions: Vec<usize> = Vec::new();
    let mut j: usize = 0;
    while j < fields.len()
        invariant
            j <= fields.len(),
            with_keys == include_primary_keys_spec(fields.deep_view()),
            positions@ == create_positions(fields.deep_view(), with_keys, foreign_keys.deep_view(), j as int),
        decreases fields.len() - j,
    {
        let f = &fields[j];
        let takes = if has_caustics_default(f) {
            false
        } else if is_primary_key_field(f) {
            with_keys && !is_auto_increment_field(f)
        } else if holds_name(&foreign_keys, f.name.as_str()) {
            false
        } else {
            !is_option(&f.ty)
        };
        if takes {
            positions.push(j);
        }
        j = j + 1;
    }
    CreatePlan {
        fields: positions,
        relations: required_relation_indices(relations, fields),
        include_primary_keys: with_keys,
        composite_primary_key: composite,
        primary_key: current_primary_key(fields),
        uuid_primary_key: primary_key_is_uuid(fields),
        default_fields: defaults,
        takes_current_time: any_time,
    }
}

/// The positions of the first `n` fields that get atomic numeric updates:
/// fields that are not primary keys and hold an integer or a float.
pub open spec fn atomic_positions(fields: Seq<ModelFieldView>, n: int) -> Seq<usize>
    decreases n,
{
    if n <= 0 {
        Seq::empty()
    } else {
        let prev = atomic_positions(fields, n - 1);
        let k = scalar_kind_spec(fields[n - 1].ty);
        if !is_primary_key_field_spec(fields[n - 1]) && (k == ScalarKind::Integer || k
            == ScalarKind::Float) {
            prev.push((n - 1) as usize)
        } else {
            prev
        }
    }
}

/// The positions of the fields that get increment, decrement, multiply and
/// divide set parameters.
pub fn atomic_field_indices(fields: &Vec<ModelField>) -> (res: Vec<usize>)
    ensures
        res@ == atomic_positions(fields.deep_view(), fields.len() as int),
{
    let mut res: Vec<usize> = Vec::new();
    let mut i: usize = 0;
    while i < fields.len()
        invariant
            i <= fields.len(),
            res@ == atomic_positions(fields.deep_view(), i as int),
        decreases fields.len() - i,
    {
        let k = scalar_kind(&fields[i].ty);
        if !is_primary_key_field(&fields[i]) && (k == ScalarKind::Integer || k == ScalarKind::Float) {
            res.push(i);
        }
        i = i + 1;
    }
    res
}

/// The kind of each field's value, in field order.
pub fn field_kinds(fields: &Vec<ModelField>) -> (res: Vec<ScalarKind>)
    ensures
        res@ == Seq::new(fields.len() as nat, |i: int| scalar_kind_spec(fields.deep_view()[i].ty)),
{
    let mut res: Vec<ScalarKind> = Vec::new();
    let mut i: usize = 0;
    while i < fields.len()
        invariant
            i <= fields.len(),
            res.len() == i,
            forall|k: int| 0 <= k < i ==> res[k] == scalar_kind_spec(fields.deep_view()[k].ty),
        decreases fields.len() - i,
    {
        res.push(scalar_kind(&fields[i].ty));
        i = i + 1;
    }
    assert(res@ =~= Seq::new(fields.len() as nat, |i: int| scalar_kind_spec(fields.deep_view()[i].ty)));
    res
}

proof fn lemma_create_positions(
    fields: Seq<ModelFieldView>,
    with_keys: bool,
    foreign_keys: Seq<Seq<char>>,
    n: int,
)
    requires
        n <= fields.len() <= usize::MAX,
    ensures
        forall|k: int|
            0 <= k < create_positions(fields, with_keys, foreign_keys, n).len() ==> {
                let p = #[trigger] create_positions(fields, with_keys, foreign_keys, n)[k];
                &&& 0 <= p < n
                &&& is_create_field_spec(fields[p as int], with_keys, foreign_keys)
            },
    decreases n,
{
    if n > 0 {
        lemma_create_positions(fields, with_keys, foreign_keys, n - 1);
        let prev = create_positions(fields, with_keys, foreign_keys, n - 1);
        let cur = create_positions(fields, with_keys, foreign_keys, n);
        assert forall|k: int| 0 <= k < cur.len() implies {
            let p = #[trigger] cur[k];
            &&& 0 <= p < n
            &&& is_create_field_spec(fields[p as int], with_keys, foreign_keys)
        } by {
            if k < prev.len() {
                assert(cur[k] == prev[k]);
            } else {
                assert(cur[k] == (n - 1) as usize);
            }
        }
    }
}

/// What creating a row takes is sound: every field the create function
/// takes is a field of the model without a default; a primary key among
/// them is not auto-increment and is taken only when keys are included;
/// any other is neither optional nor a foreign key field of a relation.  A
/// composite primary key is always included.  (The fields are those of a
/// `Vec`, so their number fits in `usize`.)
pub proof fn lemma_create_plan_sound(fields: Seq<ModelFieldView>, rels: Seq<RelationView>)
    requires
        fields.len() <= usize::MAX,
    ensures
        ({
            let p = create_plan_spec(fields, rels);
            &&& p.composite_primary_key ==> p.include_primary_keys
            &&& forall|k: int|
                0 <= k < p.fields.len() ==> {
                    let i = #[trigger] p.fields[k];
                    &&& 0 <= i < fields.len()
                    &&& !has_caustics_default_spec(fields[i as int])
                    &&& is_primary_key_field_spec(fields[i as int]) ==> p.include_primary_keys
                        && !is_auto_increment_spec(fields[i as int])
                    &&& !is_primary_key_field_spec(fields[i as int]) ==> !is_option_type(
                        fields[i as int].ty,
                    ) && !foreign_keys_of_all(rels).contains(fields[i as int].name)
                }
        }),
{
    lemma_create_positions(
        fields,
        include_primary_keys_spec(fields),
        foreign_keys_of_all(rels),
        fields.len() as int,
    );
}

/// The fields with atomic numeric updates are fields of the model that are
/// not primary keys and hold an integer or a float.  (The fields are those
/// of a `Vec`, so their number fits in `usize`.)
pub proof fn lemma_atomic_fields_numeric(fields: Seq<ModelFieldView>, n: int)
    requires
        n <= fields.len() <= usize::MAX,
    ensures
        forall|k: int|
            0 <= k < atomic_positions(fields, n).len() ==> {
                let p = #[trigger] atomic_positions(fields, n)[k];
                &&& 0 <= p < n
                &&& !is_primary_key_field_spec(fields[p as int])
                &&& (scalar_kind_spec(fields[p as int].ty) == ScalarKind::Integer || scalar_kind_spec(
                    fields[p as int].ty,
                ) == ScalarKind::Float)
            },
    decreases n,
{
    if n > 0 {
        lemma_atomic_fields_numeric(fields, n - 1);
        let prev = atomic_positions(fields, n - 1);
        let cur = atomic_positions(fields, n);
        assert forall|k: int| 0 <= k < cur.len() implies {
            let p = #[trigger] cur[k];
            &&& 0 <= p < n
            &&& !is_primary_key_field_spec(fields[p as int])
            &&& (scalar_kind_spec(fields[p as int].ty) == ScalarKind::Integer || scalar_kind_spec(
                fields[p as int].ty,
            ) == ScalarKind::Float)
        } by {
            if k < prev.len() {
                assert(cur[k] == prev[k]);
            } else {
                assert(cur[k] == (n - 1) as usize);
            }
        }
    }
}


proof fn lemma_create_positions_complete(
    fields: Seq<ModelFieldView>,
    with_keys: bool,
    foreign_keys: Seq<Seq<char>>,
    n: int,
    i: int,
)
    requires
        0 <= i < n <= fields.len() <= usize::MAX,
        is_create_field_spec(fields[i], with_keys, foreign_keys),
    ensures
        create_positions(fields, with_keys, foreign_keys, n).contains(i as usize),
    decreases n,
{
    let cur = create_positions(fields, with_keys, foreign_keys, n);
    let prev = create_positions(fields, with_keys, foreign_keys, n - 1);
    if i == n - 1 {
        assert(cur[cur.len() - 1] == i as usize);
    } else {
        lemma_create_positions_complete(fields, with_keys, foreign_keys, n - 1, i);
        let w = choose|w: int| 0 <= w < prev.len() && prev[w] == i as usize;
        assert(cur[w] == i as usize);
    }
}

/// Manually assigned keys are given when a row is created: when every
/// primary key field turns auto-increment off (`auto_increment = false`),
/// the create function includes the primary keys and takes every primary
/// key field that has no default.  (The fields are those of a `Vec`, so
/// their number fits in `usize`.)
pub proof fn lemma_create_takes_manual_keys(fields: Seq<ModelFieldView>, rels: Seq<RelationView>)
    requires
        fields.len() <= usize::MAX,
        forall|i: int|
            0 <= i < fields.len() && is_primary_key_field_spec(#[trigger] fields[i]) ==> exists|j: int|
                0 <= j < fields[i].attrs.len() && marks_no_auto_increment(#[trigger] fields[i].attrs[j]),
    ensures
        create_plan_spec(fields, rels).include_primary_keys,
        forall|i: int|
            0 <= i < fields.len() && is_primary_key_field_spec(#[trigger] fields[i])
                && !has_caustics_default_spec(fields[i]) ==> create_plan_spec(fields, rels).fields.contains(
                i as usize,
            ),
{
    assert forall|i: int| 0 <= i < fields.len() implies !is_auto_increment_spec(#[trigger] fields[i]) by {
        if is_primary_key_field_spec(fields[i]) {
            let j = choose|j: int| 0 <= j < fields[i].attrs.len() && marks_no_auto_increment(#[trigger] fields[i].attrs[j]);
        }
    }
    assert(!has_auto_increment_key_spec(fields));
    let with_keys = include_primary_keys_spec(fields);
    let fks = foreign_keys_of_all(rels);
    assert forall|i: int|
        0 <= i < fields.len() && is_primary_key_field_spec(#[trigger] fields[i])
            && !has_caustics_default_spec(fields[i]) implies create_plan_spec(fields, rels).fields.contains(
            i as usize,
        ) by {
        assert(is_create_field_spec(fields[i], with_keys, fks));
        lemma_create_positions_complete(fields, with_keys, fks, fields.len() as int, i);
    }
}


proof fn lemma_primary_key_positions_first(fields: Seq<ModelFieldView>, n: int)
    requires
        0 <= n <= fields.len() <= usize::MAX,
    ensures
        primary_key_positions(fields, n).len() == 0 <==> forall|i: int|
            0 <= i < n ==> !is_primary_key_field_spec(#[trigger] fields[i]),
        primary_key_positions(fields, n).len() > 0 ==> {
            let p = primary_key_positions(fields, n)[0] as int;
            &&& 0 <= p < n
            &&& is_primary_key_field_spec(fields[p])
            &&& forall|j: int| 0 <= j < p ==> !is_primary_key_field_spec(#[trigger] fields[j])
        },
    decreases n,
{
    if n > 0 {
        lemma_primary_key_positions_first(fields, n - 1);
        let prev = primary_key_positions(fields, n - 1);
        let cur = primary_key_positions(fields, n);
        if prev.len() > 0 {
            assert(cur[0] == prev[0]);
        } else if is_primary_key_field_spec(fields[n - 1]) {
            assert(cur[0] == (n - 1) as usize);
        }
    }
}

/// The entity's primary key is the first field marked as a primary key,
/// and `id` when no field is marked.  (The fields are those of a `Vec`, so
/// their number fits in `usize`.)
pub proof fn lemma_current_primary_key(fields: Seq<ModelFieldView>)
    requires
        fields.len() <= usize::MAX,
    ensures
        (forall|i: int| 0 <= i < fields.len() ==> !is_primary_key_field_spec(#[trigger] fields[i]))
            ==> current_primary_key_spec(fields) == "id"@,
        forall|i: int|
            0 <= i < fields.len() && is_primary_key_field_spec(#[trigger] fields[i]) && (forall|j: int|
                0 <= j < i ==> !is_primary_key_field_spec(#[trigger] fields[j]))
                ==> current_primary_key_spec(fields) == fields[i].name,
        composite_primary_key_spec(fields) ==> exists|i: int, j: int|
            0 <= i < j < fields.len() && is_primary_key_field_spec(#[trigger] fields[i])
                && is_primary_key_field_spec(#[trigger] fields[j]),
{
    lemma_primary_key_positions_first(fields, fields.len() as int);
    crate::entity::code_gen::lemma_primary_key_positions_bounded(fields, fields.len() as int);
    let pks = primary_key_positions(fields, fields.len() as int);
    assert forall|i: int|
        0 <= i < fields.len() && is_primary_key_field_spec(#[trigger] fields[i]) && (forall|j: int|
            0 <= j < i ==> !is_primary_key_field_spec(#[trigger] fields[j]))
            implies current_primary_key_spec(fields) == fields[i].name by {
        assert(pks.len() > 0);
        let p = pks[0] as int;
        if p < i {
            assert(!is_primary_key_field_spec(fields[p]));
        } else if i < p {
            assert(!is_primary_key_field_spec(fields[i]));
        }
    }
    if composite_primary_key_spec(fields) {
        lemma_pk_positions_marked(fields, fields.len() as int);
        let a = pks[0] as int;
        let b = pks[1] as int;
        assert(is_primary_key_field_spec(fields[a]));
        assert(is_primary_key_field_spec(fields[b]));
    }
}

proof fn lemma_pk_positions_marked(fields: Seq<ModelFieldView>, n: int)
    requires
        0 <= n <= fields.len() <= usize::MAX,
    ensures
        forall|k: int|
            0 <= k < primary_key_positions(fields, n).len() ==> {
                let p = #[trigger] primary_key_positions(fields, n)[k] as int;
                &&& 0 <= p < n
                &&& is_primary_key_field_spec(fields[p])
                &&& forall|m: int| 0 <= m < k ==> primary_key_positions(fields, n)[m] < primary_key_positions(fields, n)[k]
            },
    decreases n,
{
    if n > 0 {
        lemma_pk_positions_marked(fields, n - 1);
        let prev = primary_key_positions(fields, n - 1);
        let cur = primary_key_positions(fields, n);
        assert forall|k: int| 0 <= k < cur.len() implies {
            let p = #[trigger] cur[k] as int;
            &&& 0 <= p < n
            &&& is_primary_key_field_spec(fields[p])
            &&& forall|m: int| 0 <= m < k ==> cur[m] < cur[k]
        } by {
            if k < prev.len() {
                assert(cur[k] == prev[k]);
                assert forall|m: int| 0 <= m < k implies cur[m] < cur[k] by {
                    assert(cur[m] == prev[m]);
                }
            } else {
                assert(cur[k] == (n - 1) as usize);
                assert forall|m: int| 0 <= m < k implies cur[m] < cur[k] by {
                    assert(cur[m] == prev[m]);
                }
            }
        }
    }
}

proof fn lemma_key_flags_match(fields: Seq<ModelFieldView>, n: int)
    requires
        0 <= n <= fields.len() <= usize::MAX,
    ensures
        unique_key_flags_upto(fields, n).len() == unique_positions(fields, n).len(),
        forall|k: int|
            0 <= k < unique_positions(fields, n).len() ==> {
                let p = #[trigger] unique_positions(fields, n)[k] as int;
                &&& 0 <= p < n
                &&& is_unique_field_spec(fields[p])
                &&& unique_key_flags_upto(fields, n)[k] == is_primary_key_field_spec(fields[p])
            },
    decreases n,
{
    if n > 0 {
        lemma_key_flags_match(fields, n - 1);
        let prev = unique_positions(fields, n - 1);
        let cur = unique_positions(fields, n);
        let pf = unique_key_flags_upto(fields, n - 1);
        let cf = unique_key_flags_upto(fields, n);
        assert forall|k: int| 0 <= k < cur.len() implies {
            let p = #[trigger] cur[k] as int;
            &&& 0 <= p < n
            &&& is_unique_field_spec(fields[p])
            &&& cf[k] == is_primary_key_field_spec(fields[p])
        } by {
            if k < prev.len() {
                assert(cur[k] == prev[k]);
                assert(cf[k] == pf[k]);
            } else {
                assert(cur[k] == (n - 1) as usize);
            }
        }
    }
}

/// The unique-where parameters follow the unique fields: each variant is a
/// unique field's name in PascalCase followed by `Equals`, it takes a key
/// value exactly when that field is a primary key, and a composite variant
/// exists exactly when two or more fields are primary keys.  (The fields are
/// those of a `Vec`, so their number fits in `usize`.)
pub proof fn lemma_unique_where(fields: Seq<ModelFieldView>)
    requires
        fields.len() <= usize::MAX,
    ensures
        ({
            let p = unique_where_plan_spec(fields);
            &&& p.variants.len() == p.fields.len()
            &&& p.key_typed.len() == p.fields.len()
            &&& forall|k: int|
                0 <= k < p.fields.len() ==> {
                    let i = #[trigger] p.fields[k] as int;
                    &&& 0 <= i < fields.len()
                    &&& is_unique_field_spec(fields[i])
                    &&& p.variants[k] == heck_pascal_case(fields[i].name) + "Equals"@
                    &&& p.key_typed[k] == is_primary_key_field_spec(fields[i])
                }
            &&& (p.composite_variant is Some <==> exists|i: int, j: int|
                0 <= i < j < fields.len() && is_primary_key_field_spec(#[trigger] fields[i])
                    && is_primary_key_field_spec(#[trigger] fields[j]))
        }),
{
    lemma_key_flags_match(fields, fields.len() as int);
    lemma_current_primary_key(fields);
    let pks = primary_key_positions(fields, fields.len() as int);
    if exists|i: int, j: int|
        0 <= i < j < fields.len() && is_primary_key_field_spec(#[trigger] fields[i])
            && is_primary_key_field_spec(#[trigger] fields[j]) {
        let (i, j) = choose|i: int, j: int|
            0 <= i < j < fields.len() && is_primary_key_field_spec(#[trigger] fields[i])
                && is_primary_key_field_spec(#[trigger] fields[j]);
        lemma_pk_positions_count(fields, fields.len() as int, i, j);
    }
}

proof fn lemma_pk_positions_count(fields: Seq<ModelFieldView>, n: int, i: int, j: int)
    requires
        0 <= i < j < n <= fields.len() <= usize::MAX,
        is_primary_key_field_spec(fields[i]),
        is_primary_key_field_spec(fields[j]),
    ensures
        primary_key_positions(fields, n).len() > 1,
    decreases n,
{
    if j < n - 1 {
        lemma_pk_positions_count(fields, n - 1, i, j);
    } else {
        lemma_primary_key_positions_first(fields, n - 1);
    }
}

/// The kind of a field's value: an `Option` has the kind of its argument,
/// and an integer or float kind comes only from an integer or float type
/// name.
pub proof fn lemma_scalar_kind(ty: FieldTypeView, inner: FieldTypeView)
    ensures
        is_option_type(ty) && !is_option_type(inner) && inner.last_segment == ty.inner_segment
            ==> scalar_kind_spec(ty) == scalar_kind_spec(inner),
        scalar_kind_spec(ty) == ScalarKind::Integer ==> (value_segment(ty) matches Some(s)
            && is_integer_name(s)),
        scalar_kind_spec(ty) == ScalarKind::Float ==> (value_segment(ty) matches Some(s) && (s
            == "f32"@ || s == "f64"@)),
        value_segment(ty) is None ==> scalar_kind_spec(ty) == ScalarKind::Other,
{
}


/// The relations the create function takes are required relations, hence
/// belongs-to relations, listed in order without repeats.  (The relations
/// are those of a `Vec`, so their number fits in `usize`.)
pub proof fn lemma_create_relations_required(rels: Seq<RelationView>, fields: Seq<ModelFieldView>, n: int)
    requires
        0 <= n <= rels.len() <= usize::MAX,
    ensures
        forall|k: int|
            0 <= k < required_relation_positions(rels, fields, n).len() ==> {
                let p = #[trigger] required_relation_positions(rels, fields, n)[k] as int;
                &&& 0 <= p < n
                &&& is_required_relation_spec(rels[p], fields)
                &&& rels[p].kind == RelationKind::BelongsTo
                &&& forall|m: int| 0 <= m < k ==> required_relation_positions(rels, fields, n)[m] < required_relation_positions(rels, fields, n)[k]
            },
    decreases n,
{
    if n > 0 {
        lemma_create_relations_required(rels, fields, n - 1);
        let prev = required_relation_positions(rels, fields, n - 1);
        let cur = required_relation_positions(rels, fields, n);
        crate::entity::code_gen::lemma_required_relations_are_belongs_to(rels[n - 1], fields);
        assert forall|k: int| 0 <= k < cur.len() implies {
            let p = #[trigger] cur[k] as int;
            &&& 0 <= p < n
            &&& is_required_relation_spec(rels[p], fields)
            &&& rels[p].kind == RelationKind::BelongsTo
            &&& forall|m: int| 0 <= m < k ==> cur[m] < cur[k]
        } by {
            if k < prev.len() {
                assert(cur[k] == prev[k]);
                assert forall|m: int| 0 <= m < k implies cur[m] < cur[k] by {
                    assert(cur[m] == prev[m]);
                }
            } else {
                assert(cur[k] == (n - 1) as usize);
                assert forall|m: int| 0 <= m < k implies cur[m] < cur[k] by {
                    assert(cur[m] == prev[m]);
                }
            }
        }
    }
}

} // verus!
