//! What the relation submodule of each relation holds: its names and which
//! of the optional helper functions it offers.  The submodule text itself is
//! written from this plan by the token templates of the macro crate.

use vstd::prelude::*;
use crate::attrs::{find_field, find_field_spec, is_option, is_option_type, ModelField, ModelFieldView};
use crate::entity::relation_extraction::copy_path;
use crate::entity::types::{PathView, Relation, RelationKind, RelationView, TargetPath};
use crate::naming::{heck_pascal_case, heck_snake_case, lowercase, pascal_case, snake_case, std_lowercase};
use crate::text::concat;

verus! {

/// The names and options of one relation submodule.
#[derive(Debug)]
pub struct RelationSubmodulePlan {
    /// The module name: the relation name in lowercase.
    pub module_name: String,
    /// The relation name as the query layer knows it (snake_case).
    pub relation_name: String,
    /// The path of the target entity's module.
    pub target: TargetPath,
    /// `Connect<Name>`, the set-parameter variant of `connect`.
    pub connect_variant: String,
    /// `Disconnect<Name>`, the set-parameter variant of `disconnect`.
    pub disconnect_variant: String,
    /// `Create<Name>`, the set-parameter variant of `create`.
    pub create_variant: String,
    /// `CreateMany<Name>`, the set-parameter variant of `create_many`.
    pub create_many_variant: String,
    /// `Set<Name>`, the set-parameter variant of `set`.
    pub set_variant: String,
    /// `<Name>Count`, the order-by variant that counts related rows.
    pub count_variant: String,
    /// `<Name>Field`, the order-by variant on a field of the related entity.
    pub field_variant: String,
    /// The foreign key column as a Column variant (PascalCase).
    pub foreign_key_column_variant: String,
    /// `set` is offered (has-many relations).
    pub has_set: bool,
    /// `create` and `create_many` are offered (has-many relations).
    pub has_create: bool,
    /// `disconnect` is offered (belongs-to relations whose foreign key field
    /// is optional in the model).
    pub has_disconnect: bool,
    /// `order_by` and `count` on the related rows are offered (has-many).
    pub has_count_order: bool,
    /// `field` ordering on the related entity is offered (belongs-to).
    pub has_field_order: bool,
}

pub struct RelationSubmodulePlanView {
    pub module_name: Seq<char>,
    pub relation_name: Seq<char>,
    pub target: PathView,
    pub connect_variant: Seq<char>,
    pub disconnect_variant: Seq<char>,
    pub create_variant: Seq<char>,
    pub create_many_variant: Seq<char>,
    pub set_variant: Seq<char>,
    pub count_variant: Seq<char>,
    pub field_variant: Seq<char>,
    pub foreign_key_column_variant: Seq<char>,
    pub has_set: bool,
    pub has_create: bool,
    pub has_disconnect: bool,
    pub has_count_order: bool,
    pub has_field_order: bool,
}

impl DeepView for RelationSubmodulePlan {
    type V = RelationSubmodulePlanView;

    open spec fn deep_view(&self) -> RelationSubmodulePlanView {
        RelationSubmodulePlanView {
            module_name: self.module_name@,
            relation_name: self.relation_name@,
            target: self.target.deep_view(),
            connect_variant: self.connect_variant@,
            disconnect_variant: self.disconnect_variant@,
            create_variant: self.create_variant@,
            create_many_variant: self.create_many_variant@,
            set_variant: self.set_variant@,
            count_variant: self.count_variant@,
            field_variant: self.field_variant@,
            foreign_key_column_variant: self.foreign_key_column_variant@,
            has_set: self.has_set,
            has_create: self.has_create,
            has_disconnect: self.has_disconnect,
            has_count_order: self.has_count_order,
            has_field_order: self.has_field_order,
        }
    }
}

/// A belongs-to relation can be disconnected when its foreign key field is
/// an optional field of the model.
pub open spec fn can_disconnect(r: RelationView, fields: Seq<ModelFieldView>) -> bool {
    r.kind == RelationKind::BelongsTo && match r.foreign_key_field {
        Some(fk) => match find_field_spec(fields, fk) {
            Some(i) => is_option_type(fields[i].ty),
            None => false,
        },
        None => false,
    }
}

/// The plan of the submodule of a relation that has a foreign key column.
pub open spec fn submodule_plan_spec(r: RelationView, fields: Seq<ModelFieldView>) -> RelationSubmodulePlanView {
    let pascal = heck_pascal_case(r.name);
    RelationSubmodulePlanView {
        module_name: std_lowercase(r.name),
        relation_name: heck_snake_case(r.name),
        target: r.target,
        connect_variant: "Connect"@ + pascal,
        disconnect_variant: "Disconnect"@ + pascal,
        create_variant: "Create"@ + pascal,
        create_many_variant: "CreateMany"@ + pascal,
        set_variant: "Set"@ + pascal,
        count_variant: pascal + "Count"@,
        field_variant: pascal + "Field"@,
        foreign_key_column_variant: heck_pascal_case(r.foreign_key_column.unwrap()),
        has_set: r.kind == RelationKind::HasMany,
        has_create: r.kind == RelationKind::HasMany,
        has_disconnect: can_disconnect(r, fields),
        has_count_order: r.kind == RelationKind::HasMany,
        has_field_order: r.kind == RelationKind::BelongsTo,
    }
}

/// The plan of the submodule of one relation; `Err` holds the relation's
/// name when it has no foreign key column to refer to.
pub fn plan_relation_submodule(relation: &Relation, fields: &Vec<ModelField>) -> (res: Result<
    RelationSubmodulePlan,
    String,
>)
    ensures
        relation.foreign_key_column is None <==> res is Err,
        res matches Err(name) ==> name@ == relation.name@,
        res matches Ok(plan) ==> plan.deep_view() == submodule_plan_spec(
            relation.deep_view(),
            fields.deep_view(),
        ),
{
    let fk_column = match &relation.foreign_key_column {
        Some(c) => c,
        None => {
            return Err(relation.name.clone());
        },
    };
    let pascal = pascal_case(relation.name.as_str());
    let p = pascal.as_str();
    let has_many = relation.kind == RelationKind::HasMany;
    let belongs_to = relation.kind == RelationKind::BelongsTo;
    // disconnect only for a belongs-to relation with an optional foreign key field
    let mut has_disconnect = false;
    if belongs_to {
        match &relation.foreign_key_field {
            Some(fk) => {
                match find_field(fields, fk.as_str()) {
                    Some(i) => {
                        has_disconnect = is_option(&fields[i].ty);
                    },
                    None => {},
                }
            },
            None => {},
        }
    }
    Ok(
        RelationSubmodulePlan {
            module_name: lowercase(relation.name.as_str()),
            relation_name: snake_case(relation.name.as_str()),
            target: copy_path(&relation.target),
            connect_variant: concat("Connect", p),
            disconnect_variant: concat("Disconnect", p),
            create_variant: concat("Create", p),
            create_many_variant: concat("CreateMany", p),
            set_variant: concat("Set", p),
            count_variant: concat(p, "Count"),
            field_variant: concat(p, "Field"),
            foreign_key_column_variant: pascal_case(fk_column.as_str()),
            has_set: has_many,
            has_create: has_many,
            has_disconnect,
            has_count_order: has_many,
            has_field_order: belongs_to,
        },
    )
}

/// The plans of the submodules of all relations, in order; `Err` holds the
/// name of the first relation that has no foreign key column (every relation
/// before it has one).
pub fn plan_relation_submodules(relations: &Vec<Relation>, fields: &Vec<ModelField>) -> (res:
    Result<Vec<RelationSubmodulePlan>, String>)
    ensures
        res is Ok <==> forall|i: int|
            0 <= i < relations.len() ==> (#[trigger] relations[i]).foreign_key_column is Some,
        res matches Err(name) ==> exists|i: int|
            0 <= i < relations.len() && (#[trigger] relations[i]).foreign_key_column is None
                && name@ == relations[i].name@ && forall|k: int|
                0 <= k < i ==> (#[trigger] relations[k]).foreign_key_column is Some,
        res matches Ok(plans) ==> plans.len() == relations.len() && forall|i: int|
            0 <= i < relations.len() ==> (#[trigger] plans[i]).deep_view() == submodule_plan_spec(
                relations[i].deep_view(),
                fields.deep_view(),
            ),
{
    let mut plans: Vec<RelationSubmodulePlan> = Vec::new();
    let mut i: usize = 0;
    while i < relations.len()
        invariant
            i <= relations.len(),
            plans.len() == i,
            forall|k: int| 0 <= k < i ==> (#[trigger] relations[k]).foreign_key_column is Some,
            forall|k: int|
                0 <= k < i ==> (#[trigger] plans[k]).deep_view() == submodule_plan_spec(
                    relations[k].deep_view(),
                    fields.deep_view(),
                ),
        decreases relations.len() - i,
    {
        match plan_relation_submodule(&relations[i], fields) {
            Ok(plan) => {
                plans.push(plan);
            },
            Err(name) => {
                return Err(name);
            },
        }
        i = i + 1;
    }
    Ok(plans)
}


/// A relation's submodule refers to the relation's own target: its plan's
/// target path is the relation's target path, with the same leading `::`
/// and the same segments in order.  Its `set`, `create` and count ordering
/// are offered exactly for has-many relations, field ordering exactly for
/// belongs-to relations, and `disconnect` exactly for belongs-to relations
/// whose foreign key field is a model field of `Option` type.  Its module is
/// the relation name in lowercase and its foreign key column variant is the
/// foreign key column in PascalCase.
pub proof fn lemma_submodule_keeps_target(r: RelationView, fields: Seq<ModelFieldView>)
    ensures
        submodule_plan_spec(r, fields).target.leading_colon == r.target.leading_colon,
        submodule_plan_spec(r, fields).target.segments == r.target.segments,
        submodule_plan_spec(r, fields).has_set <==> r.kind == RelationKind::HasMany,
        submodule_plan_spec(r, fields).has_create <==> r.kind == RelationKind::HasMany,
        submodule_plan_spec(r, fields).has_count_order <==> r.kind == RelationKind::HasMany,
        submodule_plan_spec(r, fields).has_field_order <==> r.kind == RelationKind::BelongsTo,
        submodule_plan_spec(r, fields).has_disconnect <==> (r.kind == RelationKind::BelongsTo && (
        r.foreign_key_field matches Some(fk) && find_field_spec(fields, fk) matches Some(i)
            && fields[i].ty.last_segment == Some("Option"@))),
        submodule_plan_spec(r, fields).module_name == std_lowercase(r.name),
        submodule_plan_spec(r, fields).relation_name == heck_snake_case(r.name),
        submodule_plan_spec(r, fields).foreign_key_column_variant == heck_pascal_case(
            r.foreign_key_column.unwrap(),
        ),
{
}

} // verus!
