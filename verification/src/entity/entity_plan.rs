//! The plan of an entity's generated module: its names, its relations,
//! its keys, the variants of its set, unique-where and ordering parameters,
//! what creating a row takes, the keys of its relation fetchers and its
//! relation submodules.  The token templates of the macro crate write the
//! generated code from this plan.

use vstd::prelude::*;
use crate::attrs::{find_field, find_field_spec, ident_is, is_option, is_option_type, Attribute, AttributeView, ModelField, ModelFieldView, RelationVariant, RelationVariantView};
use crate::entity::code_gen::{
    column_variant_name,
    target_entity_name,
    target_entity_name_spec,
    column_variant_names,
    column_variant_spec,
    counted_relation_names,
    counted_relation_names_spec,
    lemma_primary_keys_are_unique,
    is_disconnectable_relation,
    is_disconnectable_spec,
    nested_create_foreign_key,
    nested_create_foreign_key_spec,
    primary_key_field_indices,
    primary_key_positions,
};
use crate::entity::fetcher_plan::{fetcher_plan_spec, plan_fetchers, FetcherPlan, FetcherPlanView};
use crate::entity::field_plan::{
    atomic_field_indices, atomic_positions, create_plan_spec, current_primary_key,
    current_primary_key_spec, field_kinds, lemma_unique_key_flags_len, plan_create,
    plan_unique_where, scalar_kind_spec, unique_where_plan_spec, CreatePlan, CreatePlanView,
    ScalarKind, UniqueWherePlan, UniqueWherePlanView,
};
use crate::entity::relation_extraction::{
    lemma_extracted_relations_name_their_keys, lemma_extracted_relations_well_formed, relations_of, try_extract_relations,
    variant_targets_parse,
};
use crate::entity::relation_submodules::{
    plan_relation_submodules, submodule_plan_spec, RelationSubmodulePlan,
    RelationSubmodulePlanView,
};
use crate::entity::table_name::{extract_table_name, table_name_spec};
use crate::entity::types::{relation_field_name, Relation, RelationKind, RelationView};
use crate::naming::{heck_pascal_case, heck_snake_case, pascal_case, snake_case};

verus! {

/// What the generated code needs to know of one relation.
#[derive(Debug)]
pub struct RelationPlan {
    /// The relation's field name in `ModelWithRelations`.
    pub field_name: String,
    /// The shape of the relation's field in `ModelWithRelations`.
    pub shape: RelationShape,
    /// The relation gets a `Set` set parameter (has-many relations).
    pub set_variant: bool,
    /// The relation gets `Create` and `CreateMany` set parameters (has-many
    /// and has-one relations).
    pub create_variants: bool,
    /// The relation gets a `Disconnect` set parameter.
    pub disconnectable: bool,
    /// The foreign key field a nested create on this relation fills.
    pub nested_create_foreign_key: String,
    /// That field as a Column variant of the child entity.
    pub nested_create_column: String,
}

/// The planned parts of an entity's generated module.
#[derive(Debug)]
pub struct EntityPlan {
    /// The entity name: the module name in PascalCase.
    pub entity_name: String,
    /// The table name of the model.
    pub table_name: String,
    /// The relations declared by the relation enum, in order.
    pub relations: Vec<Relation>,
    /// One plan per relation, in the same order.
    pub relation_plans: Vec<RelationPlan>,
    /// The positions of the primary key fields.
    pub primary_key_indices: Vec<usize>,
    /// The kind of each field's value, in field order.
    pub field_kinds: Vec<ScalarKind>,
    /// The Column variant of each field, in field order.
    pub column_variants: Vec<String>,
    /// Each field's name in PascalCase, in field order: its variant in the
    /// set, order-by, group-by and scalar-field enums.
    pub field_variants: Vec<String>,
    /// The positions of the fields that get atomic numeric updates.
    pub atomic_fields: Vec<usize>,
    /// The unique-where parameters.
    pub unique_where: UniqueWherePlan,
    /// What the `Create` struct and create function hold.
    pub create: CreatePlan,
    /// The keys of each relation's fetcher, in relation order.
    pub fetchers: Vec<FetcherPlan>,
    /// The field names of the has-many relations: the fields of the counts
    /// struct.
    pub counted_relations: Vec<String>,
    /// The plan of each relation's submodule, in relation order.
    pub submodules: Vec<RelationSubmodulePlan>,
}

/// Why no plan can be made for an entity.
#[derive(Debug)]
pub enum EntityPlanError {
    /// A relation target does not parse as a path.
    InvalidRelationTarget,
    /// The named relation's target path has no segment to name the target
    /// entity by.
    UnknownTargetEntity(String),
    /// The named relation has no foreign key column.
    MissingForeignKeyColumn(String),
}

pub struct RelationPlanView {
    pub field_name: Seq<char>,
    pub shape: RelationShape,
    pub set_variant: bool,
    pub create_variants: bool,
    pub disconnectable: bool,
    pub nested_create_foreign_key: Seq<char>,
    pub nested_create_column: Seq<char>,
}

pub struct EntityPlanView {
    pub entity_name: Seq<char>,
    pub table_name: Seq<char>,
    pub relations: Seq<RelationView>,
    pub relation_plans: Seq<RelationPlanView>,
    pub primary_key_indices: Seq<usize>,
    pub field_kinds: Seq<ScalarKind>,
    pub column_variants: Seq<Seq<char>>,
    pub field_variants: Seq<Seq<char>>,
    pub atomic_fields: Seq<usize>,
    pub unique_where: UniqueWherePlanView,
    pub create: CreatePlanView,
    pub fetchers: Seq<FetcherPlanView>,
    pub counted_relations: Seq<Seq<char>>,
    pub submodules: Seq<RelationSubmodulePlanView>,
}

pub enum EntityPlanErrorView {
    InvalidRelationTarget,
    UnknownTargetEntity(Seq<char>),
    MissingForeignKeyColumn(Seq<char>),
}

impl DeepView for RelationPlan {
    type V = RelationPlanView;

    open spec fn deep_view(&self) -> RelationPlanView {
        RelationPlanView {
            field_name: self.field_name@,
            shape: self.shape,
            set_variant: self.set_variant,
            create_variants: self.create_variants,
            disconnectable: self.disconnectable,
            nested_create_foreign_key: self.nested_create_foreign_key@,
            nested_create_column: self.nested_create_column@,
        }
    }
}

impl DeepView for EntityPlan {
    type V = EntityPlanView;

    open spec fn deep_view(&self) -> EntityPlanView {
        EntityPlanView {
            entity_name: self.entity_name@,
            table_name: self.table_name@,
            relations: self.relations.deep_view(),
            relation_plans: self.relation_plans.deep_view(),
            primary_key_indices: self.primary_key_indices@,
            field_kinds: self.field_kinds@,
            column_variants: self.column_variants.deep_view(),
            field_variants: self.field_variants.deep_view(),
            atomic_fields: self.atomic_fields@,
            unique_where: self.unique_where.deep_view(),
            create: self.create.deep_view(),
            fetchers: self.fetchers.deep_view(),
            counted_relations: self.counted_relations.deep_view(),
            submodules: self.submodules.deep_view(),
        }
    }
}

impl DeepView for EntityPlanError {
    type V = EntityPlanErrorView;

    open spec fn deep_view(&self) -> EntityPlanErrorView {
        match self {
            EntityPlanError::InvalidRelationTarget => EntityPlanErrorView::InvalidRelationTarget,
            EntityPlanError::UnknownTargetEntity(name) => EntityPlanErrorView::UnknownTargetEntity(name@),
            EntityPlanError::MissingForeignKeyColumn(name) => EntityPlanErrorView::MissingForeignKeyColumn(name@),
        }
    }
}

/// The view of a planning result.
pub open spec fn plan_result_view(res: Result<EntityPlan, EntityPlanError>) -> Result<EntityPlanView, EntityPlanErrorView> {
    match res {
        Ok(plan) => Ok(plan.deep_view()),
        Err(e) => Err(e.deep_view()),
    }
}

/// The related row of a has-one relation may be absent when the target's
/// foreign key is optional (when that is not recorded, when the relation is
/// nullable); that of another relation when its foreign key field is an
/// optional field of the model.
pub open spec fn relation_is_optional_spec(r: RelationView, fields: Seq<ModelFieldView>) -> bool {
    if r.kind == RelationKind::HasOne {
        match r.target_fk_is_optional {
            Some(b) => b,
            None => r.is_nullable,
        }
    } else {
        match r.foreign_key_field {
            Some(fk) => match find_field_spec(fields, fk) {
                Some(i) => is_option_type(fields[i].ty),
                None => false,
            },
            None => false,
        }
    }
}

/// The related row may be absent.
pub fn relation_is_optional(relation: &Relation, fields: &Vec<ModelField>) -> (res: bool)
    ensures
        res == relation_is_optional_spec(relation.deep_view(), fields.deep_view()),
{
    if relation.kind == RelationKind::HasOne {
        match relation.target_fk_is_optional {
            Some(b) => b,
            None => relation.is_nullable,
        }
    } else {
        match &relation.foreign_key_field {
            Some(fk) => match find_field(fields, fk.as_str()) {
                Some(i) => is_option(&fields[i].ty),
                None => false,
            },
            None => false,
        }
    }
}

/// How `ModelWithRelations` holds a relation's rows, once fetched.
#[derive(Debug, Clone, Copy, PartialEq, Eq, Structural)]
pub enum RelationShape {
    /// Has-many: a list of rows.
    Many,
    /// A row that may be absent: an optional boxed row.
    OptionalOne,
    /// A row that is always there: a boxed row.
    One,
}

/// The shape of a relation's field: has-many relations hold a list; the
/// others one row, which may be absent when the relation is optional.
pub open spec fn relation_shape_spec(r: RelationView, fields: Seq<ModelFieldView>) -> RelationShape {
    if r.kind == RelationKind::HasMany {
        RelationShape::Many
    } else if relation_is_optional_spec(r, fields) {
        RelationShape::OptionalOne
    } else {
        RelationShape::One
    }
}

/// The shape of a relation's field in `ModelWithRelations`.
pub fn relation_shape(relation: &Relation, fields: &Vec<ModelField>) -> (res: RelationShape)
    ensures
        res == relation_shape_spec(relation.deep_view(), fields.deep_view()),
{
    if relation.kind == RelationKind::HasMany {
        RelationShape::Many
    } else if relation_is_optional(relation, fields) {
        RelationShape::OptionalOne
    } else {
        RelationShape::One
    }
}

/// The plan of one relation of an entity whose model struct is
/// `entity_snake` in snake_case.
pub open spec fn relation_plan_spec(
    r: RelationView,
    fields: Seq<ModelFieldView>,
    entity_snake: Seq<char>,
) -> RelationPlanView {
    RelationPlanView {
        field_name: relation_field_name(r),
        shape: relation_shape_spec(r, fields),
        set_variant: r.kind == RelationKind::HasMany,
        create_variants: r.kind == RelationKind::HasMany || r.kind == RelationKind::HasOne,
        disconnectable: is_disconnectable_spec(r, fields),
        nested_create_foreign_key: nested_create_foreign_key_spec(r, entity_snake),
        nested_create_column: column_variant_spec(nested_create_foreign_key_spec(r, entity_snake)),
    }
}

/// The position of the first relation without a foreign key column.
pub open spec fn first_without_fk_column(rels: Seq<RelationView>) -> Option<int>
    decreases rels.len(),
{
    if rels.len() == 0 {
        None
    } else {
        match first_without_fk_column(rels.drop_last()) {
            Some(i) => Some(i),
            None => if rels.last().foreign_key_column is None {
                Some(rels.len() - 1)
            } else {
                None
            },
        }
    }
}

/// The plan of an entity with relations `rels`, every one of which has a
/// foreign key column.
pub open spec fn entity_plan_of(
    module_name: Seq<char>,
    struct_name: Seq<char>,
    table: Seq<char>,
    fields: Seq<ModelFieldView>,
    rels: Seq<RelationView>,
) -> EntityPlanView {
    let entity_snake = heck_snake_case(struct_name);
    EntityPlanView {
        entity_name: heck_pascal_case(module_name),
        table_name: table,
        relations: rels,
        relation_plans: Seq::new(rels.len(), |i: int| relation_plan_spec(rels[i], fields, entity_snake)),
        primary_key_indices: primary_key_positions(fields, fields.len() as int),
        field_kinds: Seq::new(fields.len(), |i: int| scalar_kind_spec(fields[i].ty)),
        column_variants: Seq::new(fields.len(), |i: int| column_variant_spec(fields[i].name)),
        field_variants: Seq::new(fields.len(), |i: int| heck_pascal_case(fields[i].name)),
        atomic_fields: atomic_positions(fields, fields.len() as int),
        unique_where: unique_where_plan_spec(fields),
        create: create_plan_spec(fields, rels),
        fetchers: Seq::new(rels.len(), |i: int| fetcher_plan_spec(rels[i], current_primary_key_spec(fields))),
        counted_relations: counted_relation_names_spec(rels),
        submodules: Seq::new(rels.len(), |i: int| submodule_plan_spec(rels[i], fields)),
    }
}

/// The plan of an entity: the table name comes from the model attributes
/// (or the struct name), the relations from the relation enum's variants.
/// It fails when a relation target is not a path; otherwise it names the
/// first relation whose target entity is unknown, if there is one (the
/// fetchers are planned first), and else the first relation without a
/// foreign key column, if there is one.
pub open spec fn entity_plan_spec(
    module_name: Seq<char>,
    struct_name: Seq<char>,
    model_attrs: Seq<AttributeView>,
    fields: Seq<ModelFieldView>,
    variants: Seq<RelationVariantView>,
) -> Result<EntityPlanView, EntityPlanErrorView> {
    if !variant_targets_parse(variants) {
        Err(EntityPlanErrorView::InvalidRelationTarget)
    } else {
        let table = table_name_spec(model_attrs, struct_name);
        let rels = relations_of(variants, fields, table);
        match first_without_target_entity(rels) {
            Some(i) => Err(EntityPlanErrorView::UnknownTargetEntity(rels[i].name)),
            None => match first_without_fk_column(rels) {
                Some(i) => Err(EntityPlanErrorView::MissingForeignKeyColumn(rels[i].name)),
                None => Ok(entity_plan_of(module_name, struct_name, table, fields, rels)),
            },
        }
    }
}

/// The position of the first relation whose target entity is unknown.
pub open spec fn first_without_target_entity(rels: Seq<RelationView>) -> Option<int>
    decreases rels.len(),
{
    if rels.len() == 0 {
        None
    } else {
        match first_without_target_entity(rels.drop_last()) {
            Some(i) => Some(i),
            None => if target_entity_name_spec(rels.last()) is None {
                Some(rels.len() - 1)
            } else {
                None
            },
        }
    }
}

proof fn lemma_first_without_target_entity(rels: Seq<RelationView>)
    ensures
        match first_without_target_entity(rels) {
            Some(i) => 0 <= i < rels.len() && target_entity_name_spec(rels[i]) is None && forall|k: int|
                0 <= k < i ==> target_entity_name_spec(#[trigger] rels[k]) is Some,
            None => forall|k: int| 0 <= k < rels.len() ==> target_entity_name_spec(#[trigger] rels[k]) is Some,
        },
    decreases rels.len(),
{
    if rels.len() > 0 {
        let prev = rels.drop_last();
        lemma_first_without_target_entity(prev);
        assert(forall|k: int| 0 <= k < prev.len() ==> prev[k] == #[trigger] rels[k]);
    }
}

/// The name of the first relation whose target entity is unknown.
fn first_unknown_target(relations: &Vec<Relation>) -> (res: Option<String>)
    ensures
        match first_without_target_entity(relations.deep_view()) {
            Some(i) => res matches Some(n) && n@ == relations.deep_view()[i].name,
            None => res is None,
        },
{
    proof {
        lemma_first_without_target_entity(relations.deep_view());
    }
    let mut i: usize = 0;
    while i < relations.len()
        invariant
            i <= relations.len(),
            forall|k: int| 0 <= k < i ==> target_entity_name_spec(#[trigger] relations.deep_view()[k]) is Some,
            match first_without_target_entity(relations.deep_view()) {
                Some(j) => 0 <= j < relations.len() && target_entity_name_spec(relations.deep_view()[j]) is None && forall|k: int|
                    0 <= k < j ==> target_entity_name_spec(#[trigger] relations.deep_view()[k]) is Some,
                None => forall|k: int| 0 <= k < relations.len() ==> target_entity_name_spec(#[trigger] relations.deep_view()[k]) is Some,
            },
        decreases relations.len() - i,
    {
        let t = target_entity_name(&relations[i]);
        assert(relations.deep_view()[i as int] == relations[i as int].deep_view());
        if t.is_none() {
            let ghost j = first_without_target_entity(relations.deep_view()).unwrap();
            assert(j == i);
            return Some(relations[i].name.clone());
        }
        i = i + 1;
    }
    None
}

proof fn lemma_first_without_fk_column(rels: Seq<RelationView>)
    ensures
        match first_without_fk_column(rels) {
            Some(i) => 0 <= i < rels.len() && rels[i].foreign_key_column is None && forall|k: int|
                0 <= k < i ==> (#[trigger] rels[k]).foreign_key_column is Some,
            None => forall|k: int| 0 <= k < rels.len() ==> (#[trigger] rels[k]).foreign_key_column is Some,
        },
    decreases rels.len(),
{
    if rels.len() > 0 {
        let prev = rels.drop_last();
        lemma_first_without_fk_column(prev);
        assert(forall|k: int| 0 <= k < prev.len() ==> prev[k] == #[trigger] rels[k]);
    }
}

/// The plan of each relation, in order.
pub fn plan_relations(relations: &Vec<Relation>, fields: &Vec<ModelField>, entity_snake: &str) -> (res: Vec<RelationPlan>)
    requires
        forall|i: int|
            0 <= i < relations.len() ==> (#[trigger] relations[i]).foreign_key_fields.len() > 0
                ==> relations[i].foreign_key_field is Some,
    ensures
        res.deep_view() == Seq::new(
            relations.len() as nat,
            |i: int| relation_plan_spec(relations.deep_view()[i], fields.deep_view(), entity_snake@),
        ),
{
    let mut res: Vec<RelationPlan> = Vec::new();
    let mut i: usize = 0;
    while i < relations.len()
        invariant
            i <= relations.len(),
            res.len() == i,
            forall|i: int|
                0 <= i < relations.len() ==> (#[trigger] relations[i]).foreign_key_fields.len() > 0
                    ==> relations[i].foreign_key_field is Some,
            forall|k: int|
                0 <= k < i ==> (#[trigger] res[k]).deep_view() == relation_plan_spec(
                    relations.deep_view()[k],
                    fields.deep_view(),
                    entity_snake@,
                ),
        decreases relations.len() - i,
    {
        let r = &relations[i];
        let nested = nested_create_foreign_key(r, entity_snake);
        let nested_column = column_variant_name(nested.as_str());
        let plan = RelationPlan {
            field_name: r.get_field_name(),
            shape: relation_shape(r, fields),
            set_variant: r.kind == RelationKind::HasMany,
            create_variants: r.kind == RelationKind::HasMany || r.kind == RelationKind::HasOne,
            disconnectable: is_disconnectable_relation(r, fields),
            nested_create_foreign_key: nested,
            nested_create_column: nested_column,
        };
        res.push(plan);
        i = i + 1;
    }
    assert(res.deep_view() =~= Seq::new(
        relations.len() as nat,
        |i: int| relation_plan_spec(relations.deep_view()[i], fields.deep_view(), entity_snake@),
    ));
    res
}

/// Each field's name in PascalCase: its variant in the set, order-by,
/// group-by and scalar-field enums.
pub fn field_variant_names(fields: &Vec<ModelField>) -> (res: Vec<String>)
    ensures
        res.deep_view() == Seq::new(fields.len() as nat, |i: int| heck_pascal_case(fields.deep_view()[i].name)),
{
    let mut res: Vec<String> = Vec::new();
    let mut i: usize = 0;
    while i < fields.len()
        invariant
            i <= fields.len(),
            res.len() == i,
            forall|k: int| 0 <= k < i ==> (#[trigger] res[k])@ == heck_pascal_case(fields[k].name@),
        decreases fields.len() - i,
    {
        res.push(pascal_case(fields[i].name.as_str()));
        i = i + 1;
    }
    assert(res.deep_view() =~= Seq::new(fields.len() as nat, |i: int| heck_pascal_case(fields.deep_view()[i].name)));
    res
}

/// Plans everything generated for an entity from the module name, the model
/// struct's name, attributes and fields, and the relation enum's variants.
pub fn plan_entity(
    module_name: &str,
    struct_name: &str,
    model_attrs: &Vec<Attribute>,
    fields: &Vec<ModelField>,
    variants: &Vec<RelationVariant>,
) -> (res: Result<EntityPlan, EntityPlanError>)
    ensures
        plan_result_view(res) == entity_plan_spec(
            module_name@,
            struct_name@,
            model_attrs.deep_view(),
            fields.deep_view(),
            variants.deep_view(),
        ),
{
    let table_name = extract_table_name(model_attrs, struct_name);
    let relations = match try_extract_relations(variants, fields, table_name.as_str()) {
        Some(rels) => rels,
        None => {
            return Err(EntityPlanError::InvalidRelationTarget);
        },
    };
    match first_unknown_target(&relations) {
        Some(name) => {
            return Err(EntityPlanError::UnknownTargetEntity(name));
        },
        None => {},
    }
    let ghost rels = relations.deep_view();
    proof {
        lemma_extracted_relations_name_their_keys(variants.deep_view(), fields.deep_view(), table_name@);
        lemma_first_without_fk_column(rels);
        assert(forall|i: int| 0 <= i < relations.len() ==> rels[i] == (#[trigger] relations[i]).deep_view());
    }
    let submodules = match plan_relation_submodules(&relations, fields) {
        Ok(plans) => plans,
        Err(name) => {
            proof {
                let j = first_without_fk_column(rels).unwrap();
                let i = choose|i: int|
                    0 <= i < relations.len() && (#[trigger] relations[i]).foreign_key_column is None
                        && name@ == relations[i].name@ && forall|k: int|
                        0 <= k < i ==> (#[trigger] relations[k]).foreign_key_column is Some;
                if i < j {
                    assert(rels[i].foreign_key_column is Some);
                } else if j < i {
                    assert(relations[j].foreign_key_column is Some);
                }
            }
            return Err(EntityPlanError::MissingForeignKeyColumn(name));
        },
    };
    let entity_snake = snake_case(struct_name);
    let relation_plans = plan_relations(&relations, fields, entity_snake.as_str());
    let primary_key_indices = primary_key_field_indices(fields);
    let kinds = field_kinds(fields);
    let column_variants = column_variant_names(fields);
    let field_variants = field_variant_names(fields);
    let atomic_fields = atomic_field_indices(fields);
    let unique_where = plan_unique_where(fields);
    let create = plan_create(fields, &relations);
    let current_pk = current_primary_key(fields);
    let fetchers = plan_fetchers(&relations, current_pk.as_str());
    let counted_relations = counted_relation_names(&relations);
    let plan = EntityPlan {
        entity_name: pascal_case(module_name),
        table_name,
        relations,
        relation_plans,
        primary_key_indices,
        field_kinds: kinds,
        column_variants,
        field_variants,
        atomic_fields,
        unique_where,
        create,
        fetchers,
        counted_relations,
        submodules,
    };
    proof {
        let fv = fields.deep_view();
        assert(plan.column_variants.deep_view() =~= Seq::new(fields.len() as nat, |i: int| column_variant_spec(fv[i].name)));
        assert(plan.field_kinds@ =~= Seq::new(fields.len() as nat, |i: int| scalar_kind_spec(fv[i].ty)));
        assert(plan.submodules.deep_view() =~= Seq::new(rels.len(), |i: int| submodule_plan_spec(rels[i], fv)));
        assert(plan.deep_view() == entity_plan_of(module_name@, struct_name@, table_name@, fv, rels));
    }
    Ok(plan)
}

/// Every plan is aligned: there is one relation plan, one fetcher and one
/// submodule per relation; one Column variant, one field variant and
/// one kind per field; one unique-where variant and one key flag per unique
/// field; every primary key is among the unique fields; there is a
/// composite unique-where variant exactly when more than one field is a
/// primary key; every relation records the entity's table; and every
/// fetcher has a column to filter on, a target key and a target entity.
pub proof fn lemma_entity_plan_aligned(
    module_name: Seq<char>,
    struct_name: Seq<char>,
    model_attrs: Seq<AttributeView>,
    fields: Seq<ModelFieldView>,
    variants: Seq<RelationVariantView>,
)
    requires
        entity_plan_spec(module_name, struct_name, model_attrs, fields, variants) is Ok,
    ensures
        ({
            let p = entity_plan_spec(module_name, struct_name, model_attrs, fields, variants)->Ok_0;
            &&& p.relation_plans.len() == p.relations.len()
            &&& p.submodules.len() == p.relations.len()
            &&& p.column_variants.len() == fields.len()
            &&& p.field_variants.len() == fields.len()
            &&& p.fetchers.len() == p.relations.len()
            &&& p.field_kinds.len() == fields.len()
            &&& p.unique_where.variants.len() == p.unique_where.fields.len()
            &&& p.unique_where.key_typed.len() == p.unique_where.fields.len()
            &&& (p.unique_where.composite_variant is Some <==> p.primary_key_indices.len() > 1)
            &&& forall|k: int|
                0 <= k < p.primary_key_indices.len() ==> p.unique_where.fields.contains(
                    #[trigger] p.primary_key_indices[k],
                )
            &&& forall|i: int|
                0 <= i < p.relations.len() ==> (#[trigger] p.relations[i]).current_table_name == Some(
                    p.table_name,
                )
            &&& forall|i: int|
                0 <= i < p.fetchers.len() ==> (#[trigger] p.fetchers[i]).lookup_column is Some
                    && p.fetchers[i].target_primary_key is Some && p.fetchers[i].target_entity is Some
        }),
{
    let table = table_name_spec(model_attrs, struct_name);
    lemma_primary_keys_are_unique(fields, fields.len() as int);
    lemma_unique_key_flags_len(fields, fields.len() as int);
    lemma_extracted_relations_well_formed(variants, fields, table);
    lemma_first_without_fk_column(relations_of(variants, fields, table));
    lemma_first_without_target_entity(relations_of(variants, fields, table));
}


/// How `ModelWithRelations` holds a relation follows its kind and whether
/// the related row may be absent: a has-many relation holds a list; a
/// belongs-to relation holds an optional row exactly when its foreign key
/// field is a model field of `Option` type, and a row otherwise; a has-one
/// relation holds an optional row exactly when the target's foreign key is
/// optional (when that is not recorded, when the relation is nullable).
pub proof fn lemma_relation_shape(r: RelationView, fields: Seq<ModelFieldView>)
    ensures
        r.kind == RelationKind::HasMany ==> relation_shape_spec(r, fields) == RelationShape::Many,
        r.kind == RelationKind::BelongsTo ==> (relation_shape_spec(r, fields) == RelationShape::OptionalOne
            <==> (r.foreign_key_field matches Some(fk) && find_field_spec(fields, fk) matches Some(i)
            && ident_is(fields[i].ty.last_segment, "Option"@))),
        r.kind == RelationKind::BelongsTo ==> (relation_shape_spec(r, fields) == RelationShape::One
            <==> !(r.foreign_key_field matches Some(fk) && find_field_spec(fields, fk) matches Some(i)
            && ident_is(fields[i].ty.last_segment, "Option"@))),
        r.kind == RelationKind::HasOne ==> (relation_shape_spec(r, fields) == RelationShape::OptionalOne
            <==> match r.target_fk_is_optional {
            Some(b) => b,
            None => r.is_nullable,
        }),
        r.kind == RelationKind::HasOne ==> relation_shape_spec(r, fields) != RelationShape::Many,
{
}


/// What the plan of one relation says: `Set` is offered exactly for
/// has-many relations, `Create` and `CreateMany` exactly for has-many and
/// has-one relations, `Disconnect` only for belongs-to relations; the field
/// name is the relation's field name; and the nested-create column is the
/// Column variant of the nested-create foreign key.
pub proof fn lemma_relation_plan(r: RelationView, fields: Seq<ModelFieldView>, entity_snake: Seq<char>)
    ensures
        ({
            let p = relation_plan_spec(r, fields, entity_snake);
            &&& p.set_variant <==> r.kind == RelationKind::HasMany
            &&& p.create_variants <==> (r.kind == RelationKind::HasMany || r.kind == RelationKind::HasOne)
            &&& p.disconnectable ==> r.kind == RelationKind::BelongsTo
            &&& p.field_name == relation_field_name(r)
            &&& p.shape == relation_shape_spec(r, fields)
            &&& p.nested_create_column == column_variant_spec(p.nested_create_foreign_key)
        }),
{
}

} // verus!
