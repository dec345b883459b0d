use caustics_macros::attrs::{is_option, Attribute, FieldType, ModelField, RelationVariant};
use caustics_macros::entity::code_gen::{
    belongs_to_key_column, counted_relation_names, foreign_key_field_names,
    is_disconnectable_relation, nested_create_foreign_key, column_variant_name, column_variant_names,
    unique_where_variant_names, other_unique_variant_names, has_nullable_foreign_keys, is_has_many_target,
    is_primary_key_field, is_required_relation, is_unique_field, primary_key_field_indices,
    primary_key_is_uuid, relation_names_snake, required_relation_names, target_entity_name,
    target_primary_key, unique_field_indices,
};
use caustics_macros::entity::code_gen::pascal_case_names;
use caustics_macros::entity::entity_plan::relation_is_optional;
use caustics_macros::entity::relation_extraction::extract_relations;
use caustics_macros::entity::relation_submodules::{plan_relation_submodule, plan_relation_submodules};
use caustics_macros::entity::table_name::extract_table_name;
use caustics_macros::entity::types::{PathSegment, Relation, RelationKind, TargetPath};

fn nv(key: &str, value: &str) -> String {
    format!("{} = \"{}\"", key, value)
}

fn sea_orm(items: Vec<String>) -> Attribute {
    sea_orm_raw(&items.join(", "))
}

fn sea_orm_raw(tokens: &str) -> Attribute {
    Attribute::List { path_ident: Some("sea_orm".to_string()), tokens: tokens.to_string() }
}

fn field_type(ty: &str, last: &str) -> FieldType {
    let inner = if last == "Option" {
        ty.strip_prefix("Option<").and_then(|t| t.strip_suffix('>')).map(|t| t.to_string())
    } else {
        None
    };
    FieldType { text: ty.to_string(), last_segment: Some(last.to_string()), inner_segment: inner }
}

fn field(name: &str, ty: &str, last: &str, attrs: Vec<Attribute>) -> ModelField {
    ModelField {
        name: name.to_string(),
        ty: field_type(ty, last),
        attrs,
    }
}

fn path(segs: &[&str]) -> TargetPath {
    TargetPath {
        leading_colon: false,
        segments: segs.iter().map(|s| PathSegment { ident: s.to_string(), arguments: syn::PathArguments::None }).collect(),
    }
}

fn relation(name: &str, kind: RelationKind) -> Relation {
    Relation {
        name: name.to_string(),
        target: path(&["super", "user"]),
        kind,
        foreign_key_field: None,
        foreign_key_type: None,
        foreign_key_column: None,
        primary_key_field: None,
        foreign_key_fields: vec![],
        foreign_key_types: vec![],
        foreign_key_columns: vec![],
        target_primary_key_fields: vec![],
        target_primary_key_columns: vec![],
        target_unique_param: None,
        is_nullable: false,
        target_entity_name: None,
        current_table_name: None,
        is_composite: false,
        composite_key_mapping: vec![],
        custom_field_name: None,
        target_fk_is_optional: None,
    }
}

#[test]
fn table_name_from_attribute() {
    let attrs = vec![sea_orm(vec![nv("table_name", "people")])];
    assert_eq!(extract_table_name(&attrs, "Model"), "people");
}

#[test]
fn table_name_defaults_to_snake_struct_name() {
    assert_eq!(extract_table_name(&vec![], "BlogPost"), "blog_post");
    let other = vec![sea_orm(vec![nv("schema_name", "x")])];
    assert_eq!(extract_table_name(&other, "Model"), "model");
}

#[test]
fn table_name_first_attribute_wins() {
    let attrs = vec![
        Attribute::Other,
        sea_orm(vec!["skip".to_string(), nv("table_name", "first")]),
        sea_orm(vec![nv("table_name", "second")]),
    ];
    assert_eq!(extract_table_name(&attrs, "Model"), "first");
}

#[test]
fn table_name_value_must_be_a_string() {
    let attrs = vec![sea_orm_raw("table_name = 5")];
    assert_eq!(extract_table_name(&attrs, "Thing"), "thing");
}

#[test]
fn option_types_are_recognised() {
    assert!(is_option(&FieldType { text: "Option<i32>".to_string(), last_segment: Some("Option".to_string()), inner_segment: None }));
    assert!(!is_option(&FieldType { text: "i32".to_string(), last_segment: Some("i32".to_string()), inner_segment: None }));
    assert!(!is_option(&FieldType { text: "&str".to_string(), last_segment: None, inner_segment: None }));
}

#[test]
fn submodule_plan_for_has_many() {
    let mut r = relation("BlogPosts", RelationKind::HasMany);
    r.foreign_key_column = Some("AuthorId".to_string());
    let plan = plan_relation_submodule(&r, &vec![]).unwrap();
    assert_eq!(plan.module_name, "blogposts");
    assert_eq!(plan.relation_name, "blog_posts");
    assert_eq!(plan.connect_variant, "ConnectBlogPosts");
    assert_eq!(plan.disconnect_variant, "DisconnectBlogPosts");
    assert_eq!(plan.create_variant, "CreateBlogPosts");
    assert_eq!(plan.create_many_variant, "CreateManyBlogPosts");
    assert_eq!(plan.set_variant, "SetBlogPosts");
    assert_eq!(plan.count_variant, "BlogPostsCount");
    assert_eq!(plan.field_variant, "BlogPostsField");
    assert_eq!(plan.foreign_key_column_variant, "AuthorId");
    assert!(plan.has_set && plan.has_create && plan.has_count_order);
    assert!(!plan.has_disconnect && !plan.has_field_order);
}

#[test]
fn submodule_plan_for_optional_belongs_to() {
    let mut r = relation("User", RelationKind::BelongsTo);
    r.foreign_key_column = Some("user_id".to_string());
    r.foreign_key_field = Some("user_id".to_string());
    let optional = vec![field("user_id", "Option<i32>", "Option", vec![])];
    let required = vec![field("user_id", "i32", "i32", vec![])];
    let p1 = plan_relation_submodule(&r, &optional).unwrap();
    assert!(p1.has_disconnect && p1.has_field_order && !p1.has_set && !p1.has_create);
    assert_eq!(p1.foreign_key_column_variant, "UserId");
    let p2 = plan_relation_submodule(&r, &required).unwrap();
    assert!(!p2.has_disconnect);
}

#[test]
fn submodule_plan_needs_foreign_key_column() {
    let r = relation("Lonely", RelationKind::HasMany);
    assert_eq!(plan_relation_submodule(&r, &vec![]).unwrap_err(), "Lonely");
    let mut ok = relation("Fine", RelationKind::HasMany);
    ok.foreign_key_column = Some("X".to_string());
    assert!(plan_relation_submodules(&vec![ok.clone()], &vec![]).is_ok());
    assert_eq!(plan_relation_submodules(&vec![ok, r], &vec![]).unwrap_err(), "Lonely");
}

#[test]
fn primary_and_unique_fields() {
    let fields = vec![
        field("id", "i32", "i32", vec![sea_orm_raw("primary_key")]),
        field("email", "String", "String", vec![sea_orm_raw("unique")]),
        field("name", "String", "String", vec![]),
        field("code", "Uuid", "Uuid", vec![Attribute::List { path_ident: Some("primary_key".to_string()), tokens: String::new() }]),
    ];
    assert!(is_primary_key_field(&fields[0]));
    assert!(!is_primary_key_field(&fields[1]));
    assert!(is_unique_field(&fields[1]));
    assert_eq!(primary_key_field_indices(&fields), vec![0, 3]);
    assert_eq!(unique_field_indices(&fields), vec![0, 1, 3]);
    assert!(!primary_key_is_uuid(&fields));
    let uuid_first = vec![fields[3].clone(), fields[0].clone()];
    assert!(primary_key_is_uuid(&uuid_first));
    assert!(!primary_key_is_uuid(&vec![]));
}

#[test]
fn relation_flags() {
    let mut a = relation("User", RelationKind::BelongsTo);
    a.foreign_key_column = Some("user_id".to_string());
    let b = relation("Posts", RelationKind::HasMany);
    assert!(is_has_many_target(&vec![a.clone(), b.clone()]));
    assert!(!is_has_many_target(&vec![a.clone()]));
    assert!(!has_nullable_foreign_keys(&vec![a.clone(), b.clone()]));
    a.is_nullable = true;
    assert!(has_nullable_foreign_keys(&vec![a.clone()]));
    assert!(!has_nullable_foreign_keys(&vec![]));
}

#[test]
fn foreign_key_names_in_order() {
    let mut a = relation("A", RelationKind::BelongsTo);
    a.foreign_key_fields = vec!["x_id".to_string(), "y_id".to_string()];
    let mut b = relation("B", RelationKind::HasMany);
    b.foreign_key_field = Some("b_id".to_string());
    let c = relation("C", RelationKind::HasMany);
    assert_eq!(foreign_key_field_names(&vec![a, b, c]), vec!["x_id", "y_id", "b_id"]);
}

#[test]
fn required_relations_for_create() {
    let variants = vec![
        RelationVariant {
            name: "Author".to_string(),
            attrs: vec![sea_orm(vec![nv("belongs_to", "super::user::Entity"), nv("from", "Column::AuthorId"), nv("to", "super::user::Column::Id")])],
        },
        RelationVariant {
            name: "Editor".to_string(),
            attrs: vec![sea_orm(vec![nv("belongs_to", "super::user::Entity"), nv("from", "Column::EditorId"), nv("to", "super::user::Column::Id")])],
        },
    ];
    let fields = vec![
        field("id", "i32", "i32", vec![sea_orm_raw("primary_key")]),
        field("author_id", "i32", "i32", vec![]),
        field("editor_id", "Option<i32>", "Option", vec![]),
    ];
    let rels = extract_relations(&variants, &fields, "posts");
    assert!(is_required_relation(&rels[0], &fields));
    assert!(!is_required_relation(&rels[1], &fields));
    assert_eq!(required_relation_names(&rels, &fields), vec!["author"]);
    assert_eq!(relation_names_snake(&rels), vec!["author", "editor"]);
}

#[test]
fn fetcher_keys() {
    let mut a = relation("User", RelationKind::BelongsTo);
    assert_eq!(target_primary_key(&a, "id"), None);
    assert_eq!(belongs_to_key_column(&a), "Id");
    a.target_primary_key_columns = vec!["user_key".to_string()];
    assert_eq!(target_primary_key(&a, "id").as_deref(), Some("user_key"));
    assert_eq!(belongs_to_key_column(&a), "UserKey");
    a.primary_key_field = Some("uid".to_string());
    assert_eq!(target_primary_key(&a, "id").as_deref(), Some("uid"));
    let h = relation("Posts", RelationKind::HasMany);
    assert_eq!(target_primary_key(&h, "post_pk").as_deref(), Some("post_pk"));
}

#[test]
fn target_entity_names() {
    let mut r = relation("User", RelationKind::BelongsTo);
    r.target = path(&["super", "UserAccount"]);
    assert_eq!(target_entity_name(&r).as_deref(), Some("useraccount"));
    r.target_entity_name = Some("Explicit".to_string());
    assert_eq!(target_entity_name(&r).as_deref(), Some("Explicit"));
    let mut e = relation("X", RelationKind::HasOne);
    e.target = path(&[]);
    assert_eq!(target_entity_name(&e), None);
}

#[test]
fn disconnectable_relations() {
    let mut r = relation("User", RelationKind::BelongsTo);
    r.foreign_key_field = Some("user_id".to_string());
    let optional = vec![field("user_id", "Option<i32>", "Option", vec![])];
    let required = vec![field("user_id", "i32", "i32", vec![])];
    assert!(is_disconnectable_relation(&r, &optional));
    assert!(!is_disconnectable_relation(&r, &required));
    assert!(!is_disconnectable_relation(&r, &vec![]));
    let mut h = relation("Posts", RelationKind::HasMany);
    h.foreign_key_field = Some("user_id".to_string());
    assert!(!is_disconnectable_relation(&h, &optional));
}

#[test]
fn nested_create_foreign_keys() {
    let mut r = relation("Posts", RelationKind::HasMany);
    assert_eq!(nested_create_foreign_key(&r, "user"), "user_id");
    r.foreign_key_column = Some("AuthorId".to_string());
    assert_eq!(nested_create_foreign_key(&r, "user"), "AuthorId");
    r.foreign_key_columns = vec!["author_id".to_string()];
    assert_eq!(nested_create_foreign_key(&r, "user"), "author_id");
}

#[test]
fn counted_relations_are_has_many() {
    let rels = vec![
        relation("Comment", RelationKind::HasMany),
        relation("Author", RelationKind::BelongsTo),
        relation("Tag", RelationKind::HasMany),
    ];
    assert_eq!(counted_relation_names(&rels), vec!["comments", "tags"]);
}

#[test]
fn column_variants_capitalize_each_part() {
    assert_eq!(column_variant_name("author_id"), "AuthorId");
    assert_eq!(column_variant_name("id"), "Id");
    assert_eq!(column_variant_name("a__b"), "AB");
    assert_eq!(column_variant_name("_leading"), "Leading");
    assert_eq!(column_variant_name(""), "");
    assert_eq!(column_variant_name("ßtraße_x"), "SStraßeX");
    let fields = vec![field("created_at", "DateTime", "DateTime", vec![]), field("name", "String", "String", vec![])];
    assert_eq!(column_variant_names(&fields), vec!["CreatedAt", "Name"]);
}

#[test]
fn unique_where_variants() {
    let fields = vec![
        field("id", "i32", "i32", vec![sea_orm_raw("primary_key")]),
        field("email", "String", "String", vec![sea_orm_raw("unique")]),
        field("name", "String", "String", vec![]),
    ];
    let names = unique_where_variant_names(&fields);
    assert_eq!(names, vec!["IdEquals", "EmailEquals"]);
    assert_eq!(other_unique_variant_names(&names, "id"), vec!["EmailEquals"]);
    assert_eq!(other_unique_variant_names(&names, "uuid"), vec!["IdEquals", "EmailEquals"]);
}

#[test]
fn table_name_from_unreadable_arguments_defaults() {
    let attrs = vec![sea_orm_raw("table_name = = \"people\"")];
    assert_eq!(extract_table_name(&attrs, "Thing"), "thing");
}

#[test]
fn field_names_become_pascal_case_columns() {
    let names = vec!["id".to_string(), "author_id".to_string(), "createdAt".to_string()];
    assert_eq!(pascal_case_names(&names), vec!["Id", "AuthorId", "CreatedAt"]);
}

#[test]
fn optional_relations_follow_their_keys() {
    let fields = vec![
        field("author_id", "Option<i32>", "Option", vec![]),
        field("editor_id", "i32", "i32", vec![]),
    ];
    let mut b = relation("Author", RelationKind::BelongsTo);
    b.foreign_key_field = Some("author_id".to_string());
    assert!(relation_is_optional(&b, &fields));
    b.foreign_key_field = Some("editor_id".to_string());
    assert!(!relation_is_optional(&b, &fields));
    b.foreign_key_field = None;
    assert!(!relation_is_optional(&b, &fields));
    let mut h = relation("Profile", RelationKind::HasOne);
    h.is_nullable = true;
    assert!(relation_is_optional(&h, &fields));
    h.target_fk_is_optional = Some(false);
    assert!(!relation_is_optional(&h, &fields));
}
