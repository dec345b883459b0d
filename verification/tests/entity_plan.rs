use caustics_macros::attrs::{Attribute, FieldType, ModelField, RelationVariant};
use caustics_macros::entity::entity_plan::{plan_entity, EntityPlanError, RelationShape};

fn nv(key: &str, value: &str) -> String {
    format!("{} = \"{}\"", key, value)
}

fn sea_orm(tokens: &str) -> Attribute {
    Attribute::List { path_ident: Some("sea_orm".to_string()), tokens: tokens.to_string() }
}

fn field_type(ty: &str, last: &str) -> FieldType {
    let inner = if last == "Option" {
        ty.strip_prefix("Option<").and_then(|t| t.strip_suffix('>')).map(|t| t.to_string())
    } else {
        None
    };
    FieldType { text: ty.to_string(), last_segment: Some(last.to_string()), inner_segment: inner }
}

fn field(name: &str, ty: &str, last: &str, attrs: Vec<Attribute>) -> ModelField {
    ModelField {
        name: name.to_string(),
        ty: field_type(ty, last),
        attrs,
    }
}

fn variant(name: &str, items: Vec<String>) -> RelationVariant {
    RelationVariant { name: name.to_string(), attrs: vec![sea_orm(&items.join(", "))] }
}

fn user_fields() -> Vec<ModelField> {
    vec![
        field("id", "i32", "i32", vec![sea_orm("primary_key")]),
        field("email", "String", "String", vec![sea_orm("unique")]),
        field("display_name", "Option<String>", "Option", vec![]),
    ]
}

fn posts_variant() -> RelationVariant {
    variant(
        "Posts",
        vec![nv("has_many", "super::post::Entity"), nv("from", "Column::Id"), nv("to", "super::post::Column::AuthorId")],
    )
}

#[test]
fn entity_plan_for_user_with_posts() {
    let attrs = vec![sea_orm(&nv("table_name", "users"))];
    let plan = plan_entity("user", "Model", &attrs, &user_fields(), &vec![posts_variant()]).unwrap();
    assert_eq!(plan.entity_name, "User");
    assert_eq!(plan.table_name, "users");
    assert_eq!(plan.relations.len(), 1);
    assert_eq!(plan.relations[0].current_table_name.as_deref(), Some("users"));
    let r = &plan.relation_plans[0];
    assert_eq!(r.field_name, "posts");
    assert_eq!(r.shape, RelationShape::Many);
    assert!(r.set_variant);
    assert!(r.create_variants);
    assert!(!r.disconnectable);
    assert_eq!(r.nested_create_foreign_key, "AuthorId");
    assert_eq!(r.nested_create_column, "AuthorId");
    assert_eq!(plan.primary_key_indices, vec![0]);
    assert_eq!(plan.unique_where.fields, vec![0, 1]);
    assert_eq!(plan.unique_where.key_typed, vec![true, false]);
    assert!(plan.unique_where.composite_variant.is_none());
    assert!(plan.create.relations.is_empty());
    assert!(!plan.create.uuid_primary_key);
    assert_eq!(plan.create.primary_key, "id");
    assert_eq!(plan.create.fields, vec![1]);
    assert!(!plan.create.include_primary_keys);
    assert_eq!(plan.fetchers.len(), 1);
    assert_eq!(plan.fetchers[0].relation_name, "posts");
    assert_eq!(plan.fetchers[0].foreign_key_column.as_deref(), Some("AuthorId"));
    assert_eq!(plan.fetchers[0].foreign_key_column_snake.as_deref(), Some("author_id"));
    assert_eq!(plan.fetchers[0].lookup_column.as_deref(), Some("AuthorId"));
    assert_eq!(plan.fetchers[0].target_primary_key.as_deref(), Some("id"));
    assert_eq!(plan.fetchers[0].target_primary_key_column.as_deref(), Some("Id"));
    assert_eq!(plan.fetchers[0].target_entity.as_deref(), Some("post"));
    assert!(plan.fetchers[0].composite_columns.is_empty());
    assert!(plan.atomic_fields.is_empty());
    assert_eq!(plan.column_variants, vec!["Id", "Email", "DisplayName"]);
    assert_eq!(plan.field_variants, vec!["Id", "Email", "DisplayName"]);
    assert_eq!(plan.unique_where.variants, vec!["IdEquals", "EmailEquals"]);
    assert_eq!(plan.counted_relations, vec!["posts"]);
    assert_eq!(plan.submodules.len(), 1);
    assert_eq!(plan.submodules[0].module_name, "posts");
    assert!(plan.submodules[0].has_set);
}

#[test]
fn entity_plan_without_relations_uses_struct_name() {
    let fields = vec![field("id", "Uuid", "Uuid", vec![sea_orm("primary_key")])];
    let plan = plan_entity("blog_post", "BlogPost", &vec![], &fields, &vec![]).unwrap();
    assert_eq!(plan.entity_name, "BlogPost");
    assert_eq!(plan.table_name, "blog_post");
    assert!(plan.relations.is_empty());
    assert!(plan.submodules.is_empty());
    assert!(plan.create.uuid_primary_key);
}

#[test]
fn entity_plan_rejects_non_path_target() {
    let bad = variant("Bad", vec![nv("has_many", "not a path!"), nv("from", "Column::Id"), nv("to", "Column::Id")]);
    let res = plan_entity("user", "Model", &vec![], &user_fields(), &vec![posts_variant(), bad]);
    assert!(matches!(res, Err(EntityPlanError::InvalidRelationTarget)));
}

#[test]
fn entity_plan_names_first_relation_without_column() {
    let org = variant(
        "Org",
        vec![nv("belongs_to", "super::org::Entity"), nv("from", "Column::OrgId"), nv("to", "super::org::Column::Id")],
    );
    let team = variant(
        "Team",
        vec![nv("belongs_to", "super::team::Entity"), nv("from", "Column::TeamId"), nv("to", "super::team::Column::Id")],
    );
    let res = plan_entity("user", "Model", &vec![], &user_fields(), &vec![posts_variant(), org, team]);
    match res {
        Err(EntityPlanError::MissingForeignKeyColumn(name)) => assert_eq!(name, "Org"),
        other => panic!("unexpected plan result: {:?}", other.map(|p| p.entity_name)),
    }
}

#[test]
fn entity_plan_names_relation_without_target_entity() {
    let org = variant(
        "Org",
        vec![nv("belongs_to", "super::org::Entity"), nv("from", "Column::OrgId"), nv("to", "super::org::Column::Id")],
    );
    let bare = variant("Bare", vec![nv("has_many", "Entity"), nv("from", "Column::Id"), nv("to", "Column::OwnerId")]);
    let res = plan_entity("user", "Model", &vec![], &user_fields(), &vec![posts_variant(), org, bare]);
    match res {
        Err(EntityPlanError::UnknownTargetEntity(name)) => assert_eq!(name, "Bare"),
        other => panic!("unexpected plan result: {:?}", other.map(|p| p.entity_name)),
    }
}
