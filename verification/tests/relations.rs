use caustics_macros::attrs::{Attribute, FieldType, ModelField, RelationVariant};
use caustics_macros::entity::relation_extraction::{
    extract_field_name, extract_relations, parse_target_path, relation_targets_parse,
    try_extract_relations, try_parse_target_path,
};
use caustics_macros::entity::types::{PathSegment, Relation, RelationKind, TargetPath};

fn nv(key: &str, value: &str) -> String {
    format!("{} = \"{}\"", key, value)
}

fn sea_orm(items: Vec<String>) -> Attribute {
    Attribute::List { path_ident: Some("sea_orm".to_string()), tokens: items.join(", ") }
}

fn field_type(ty: &str, last: &str) -> FieldType {
    let inner = if last == "Option" {
        ty.strip_prefix("Option<").and_then(|t| t.strip_suffix('>')).map(|t| t.to_string())
    } else {
        None
    };
    FieldType { text: ty.to_string(), last_segment: Some(last.to_string()), inner_segment: inner }
}

fn field(name: &str, ty: &str, last: &str) -> ModelField {
    ModelField {
        name: name.to_string(),
        ty: field_type(ty, last),
        attrs: vec![],
    }
}

fn seg_names(p: &TargetPath) -> Vec<String> {
    p.segments.iter().map(|s| s.ident.clone()).collect()
}

fn empty_relation(name: &str, kind: RelationKind) -> Relation {
    Relation {
        name: name.to_string(),
        target: TargetPath { leading_colon: false, segments: vec![] },
        kind,
        foreign_key_field: None,
        foreign_key_type: None,
        foreign_key_column: None,
        primary_key_field: None,
        foreign_key_fields: vec![],
        foreign_key_types: vec![],
        foreign_key_columns: vec![],
        target_primary_key_fields: vec![],
        target_primary_key_columns: vec![],
        target_unique_param: None,
        is_nullable: false,
        target_entity_name: None,
        current_table_name: None,
        is_composite: false,
        composite_key_mapping: vec![],
        custom_field_name: None,
        target_fk_is_optional: None,
    }
}

#[test]
fn field_name_after_last_separator() {
    assert_eq!(extract_field_name("Column::StudentId"), "StudentId");
    assert_eq!(extract_field_name("super::post::Column::AuthorId"), "AuthorId");
    assert_eq!(extract_field_name("Plain"), "Plain");
    assert_eq!(extract_field_name("a:::b"), "b");
    assert_eq!(extract_field_name("trailing::"), "");
}

#[test]
fn field_name_is_idempotent() {
    let once = extract_field_name("super::Column::Id");
    assert_eq!(extract_field_name(&once), once);
}

#[test]
fn target_path_drops_entity_segment() {
    let p = parse_target_path("super::post::Entity");
    assert_eq!(seg_names(&p), vec!["super", "post"]);
    assert!(!p.leading_colon);
    let q = try_parse_target_path("::crate_name::user").unwrap();
    assert!(q.leading_colon);
    assert_eq!(seg_names(&q), vec!["crate_name", "user"]);
    let only = parse_target_path("Entity");
    assert!(only.segments.is_empty());
}

#[test]
fn target_path_rejects_non_path() {
    assert!(try_parse_target_path("not a path!").is_none());
    assert!(try_parse_target_path("").is_none());
}

#[test]
fn target_path_keeps_generic_arguments() {
    let p = parse_target_path("super::Wrapper<T>");
    assert_eq!(seg_names(&p), vec!["super", "Wrapper"]);
    assert!(matches!(p.segments[0].arguments, syn::PathArguments::None));
    assert!(matches!(p.segments[1].arguments, syn::PathArguments::AngleBracketed(_)));
}

#[test]
fn belongs_to_relation_is_extracted() {
    let variants = vec![RelationVariant {
        name: "User".to_string(),
        attrs: vec![sea_orm(vec![
            nv("belongs_to", "super::user::Entity"),
            nv("from", "Column::UserId"),
            nv("to", "super::user::Column::Id"),
        ])],
    }];
    let fields = vec![field("id", "i32", "i32"), field("user_id", "Option<i32>", "Option")];
    let rels = extract_relations(&variants, &fields, "posts");
    assert_eq!(rels.len(), 1);
    let r = &rels[0];
    assert_eq!(r.name, "User");
    assert_eq!(r.kind, RelationKind::BelongsTo);
    assert_eq!(seg_names(&r.target), vec!["super", "user"]);
    assert_eq!(r.foreign_key_fields, vec!["user_id"]);
    assert_eq!(r.target_primary_key_fields, vec!["id"]);
    assert_eq!(r.foreign_key_columns, vec!["UserId", "user_id"]);
    assert_eq!(r.target_primary_key_columns, vec!["Id", "id"]);
    assert_eq!(r.foreign_key_field.as_deref(), Some("user_id"));
    assert_eq!(r.primary_key_field.as_deref(), Some("id"));
    assert_eq!(r.foreign_key_types.len(), 1);
    assert_eq!(r.foreign_key_types[0].text, "Option<i32>");
    assert!(r.is_nullable);
    assert!(!r.is_composite);
    assert_eq!(r.target_entity_name.as_deref(), Some("user"));
    assert_eq!(r.current_table_name.as_deref(), Some("posts"));
    assert_eq!(
        r.composite_key_mapping,
        vec![("user_id".to_string(), "id".to_string())]
    );
    let up = r.target_unique_param.as_ref().unwrap();
    assert_eq!(seg_names(up), vec!["super", "user", "UniqueWhereParam"]);
    assert_eq!(r.get_fk_name(), "UserId");
    assert_eq!(r.get_pk_name(), "Id");
    assert_eq!(r.get_first_fk_column_name(), "UserId");
    assert_eq!(r.get_field_name(), "user");
}

#[test]
fn has_many_relation_is_extracted() {
    let variants = vec![RelationVariant {
        name: "Posts".to_string(),
        attrs: vec![sea_orm(vec![
            nv("has_many", "super::post::Entity"),
            nv("from", "Column::Id"),
            nv("to", "super::post::Column::AuthorId"),
        ])],
    }];
    let fields = vec![field("id", "i32", "i32")];
    let rels = extract_relations(&variants, &fields, "users");
    assert_eq!(rels.len(), 1);
    let r = &rels[0];
    assert_eq!(r.kind, RelationKind::HasMany);
    assert_eq!(r.foreign_key_field.as_deref(), Some("author_id"));
    assert_eq!(r.foreign_key_column.as_deref(), Some("AuthorId"));
    assert_eq!(r.primary_key_field.as_deref(), Some("id"));
    assert_eq!(r.foreign_key_fields, vec!["author_id"]);
    assert_eq!(r.target_primary_key_fields, vec!["id"]);
    assert!(r.foreign_key_types.is_empty());
    assert!(!r.is_nullable);
    assert_eq!(r.get_field_name(), "posts");
}

#[test]
fn composite_relation_from_two_attributes() {
    let variants = vec![RelationVariant {
        name: "Enrollment".to_string(),
        attrs: vec![
            sea_orm(vec![
                nv("belongs_to", "super::enrollment::Entity"),
                nv("from", "Column::StudentId"),
                nv("to", "super::enrollment::Column::StudentId"),
            ]),
            sea_orm(vec![
                nv("belongs_to", "super::enrollment::Entity"),
                nv("from", "Column::CourseId"),
                nv("to", "super::enrollment::Column::CourseId"),
            ]),
        ],
    }];
    let fields = vec![field("student_id", "i32", "i32"), field("course_id", "i32", "i32")];
    let rels = extract_relations(&variants, &fields, "grades");
    assert_eq!(rels.len(), 1);
    let r = &rels[0];
    assert!(r.is_composite);
    assert_eq!(r.foreign_key_fields, vec!["student_id", "course_id"]);
    assert_eq!(r.get_fk_name(), "StudentIdAndCourseId");
    assert_eq!(r.get_pk_name(), "StudentIdAndCourseId");
    assert_eq!(r.foreign_key_types.len(), 2);
}

#[test]
fn incomplete_variants_yield_no_relation() {
    let variants = vec![
        RelationVariant {
            name: "Orphan".to_string(),
            attrs: vec![sea_orm(vec![nv("belongs_to", "super::x::Entity"), nv("from", "Column::XId")])],
        },
        RelationVariant { name: "Bare".to_string(), attrs: vec![] },
        RelationVariant {
            name: "Other".to_string(),
            attrs: vec![Attribute::List {
                path_ident: Some("serde".to_string()),
                tokens: vec![nv("belongs_to", "super::x::Entity"), nv("from", "Column::A"), nv("to", "Column::B")].join(", "),
            }],
        },
    ];
    let rels = extract_relations(&variants, &vec![], "t");
    assert!(rels.is_empty());
}

#[test]
fn unparsable_target_is_reported() {
    let variants = vec![RelationVariant {
        name: "Bad".to_string(),
        attrs: vec![sea_orm(vec![nv("has_many", "not a path!"), nv("from", "Column::Id"), nv("to", "Column::Id")])],
    }];
    assert!(!relation_targets_parse(&variants));
    assert!(try_extract_relations(&variants, &vec![], "t").is_none());
}

#[test]
fn try_extract_relations_matches_extract() {
    let variants = vec![RelationVariant {
        name: "User".to_string(),
        attrs: vec![sea_orm(vec![
            nv("belongs_to", "super::user::Entity"),
            nv("from", "Column::UserId"),
            nv("to", "super::user::Column::Id"),
        ])],
    }];
    let rels = try_extract_relations(&variants, &vec![], "posts").unwrap();
    assert_eq!(rels.len(), 1);
    assert_eq!(rels[0].foreign_key_fields, vec!["user_id"]);
}

#[test]
fn custom_field_name_wins() {
    let mut r = empty_relation("Author", RelationKind::HasMany);
    r.custom_field_name = Some("writer".to_string());
    assert_eq!(r.get_field_name(), "writer");
    let b = empty_relation("BlogPost", RelationKind::BelongsTo);
    assert_eq!(b.get_field_name(), "blog_post");
    let h = empty_relation("Category", RelationKind::HasMany);
    assert_eq!(h.get_field_name(), "categories");
    let o = empty_relation("Profile", RelationKind::HasOne);
    assert_eq!(o.get_field_name(), "profile");
}

#[test]
fn first_fk_column_falls_back_to_single_field() {
    let mut r = empty_relation("User", RelationKind::BelongsTo);
    r.foreign_key_field = Some("owner_id".to_string());
    assert_eq!(r.get_first_fk_column_name(), "OwnerId");
    r.foreign_key_fields = vec!["user_id".to_string(), "org_id".to_string()];
    assert_eq!(r.get_first_fk_column_name(), "UserId");
}

#[test]
fn path_segment_fields() {
    let s = PathSegment { ident: "x".to_string(), arguments: syn::PathArguments::None };
    assert_eq!(s.ident, "x");
}

#[test]
fn unreadable_attribute_arguments_yield_no_relation() {
    let variants = vec![RelationVariant {
        name: "User".to_string(),
        attrs: vec![Attribute::List {
            path_ident: Some("sea_orm".to_string()),
            tokens: "belongs_to = \"super::user::Entity\" from = \"Column::UserId\", to = \"Column::Id\"".to_string(),
        }],
    }];
    assert!(extract_relations(&variants, &vec![], "posts").is_empty());
}
