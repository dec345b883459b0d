use caustics_macros::attrs::{Attribute, FieldType, ModelField, RelationVariant};
use caustics_macros::entity::{extract_relations, try_extract_relations, RelationKind};

fn nv(key: &str, value: &str) -> String {
    format!("{} = \"{}\"", key, value)
}

fn sea_orm(items: Vec<String>) -> Attribute {
    Attribute::List { path_ident: Some("sea_orm".to_string()), tokens: items.join(", ") }
}

fn field_type(ty: &str, last: &str) -> FieldType {
    let inner = if last == "Option" {
        ty.strip_prefix("Option<").and_then(|t| t.strip_suffix('>')).map(|t| t.to_string())
    } else {
        None
    };
    FieldType { text: ty.to_string(), last_segment: Some(last.to_string()), inner_segment: inner }
}

fn field(name: &str, ty: &str, last: &str) -> ModelField {
    ModelField {
        name: name.to_string(),
        ty: field_type(ty, last),
        attrs: vec![],
    }
}

#[test]
fn single_key_belongs_to() {
    let variants = vec![RelationVariant {
        name: "Author".to_string(),
        attrs: vec![sea_orm(vec![
            nv("belongs_to", "super::user::Entity"),
            nv("from", "Column::AuthorId"),
            nv("to", "super::user::Column::Id"),
        ])],
    }];
    let fields = vec![field("author_id", "Option<i32>", "Option")];
    let rels = extract_relations(&variants, &fields, "posts");
    assert_eq!(rels.len(), 1);
    let r = &rels[0];
    assert_eq!(r.name, "Author");
    assert_eq!(r.kind, RelationKind::BelongsTo);
    assert_eq!(r.foreign_key_field.as_deref(), Some("author_id"));
    assert_eq!(r.foreign_key_type.as_ref().unwrap().text, "Option<i32>");
    assert_eq!(r.foreign_key_column.as_deref(), Some("Id"));
    assert!(r.is_nullable);
    assert_eq!(r.target_table_name.as_deref(), Some("author"));
    assert_eq!(r.current_table_name.as_deref(), Some("posts"));
    let up = r.target_unique_param.as_ref().unwrap();
    let names: Vec<String> = up.segments.iter().map(|s| s.ident.clone()).collect();
    assert_eq!(names, vec!["super", "user", "UniqueWhereParam"]);
}

#[test]
fn single_key_column_nullable_and_primary_key() {
    let variants = vec![RelationVariant {
        name: "Posts".to_string(),
        attrs: vec![sea_orm(vec![
            nv("has_many", "super::post::Entity"),
            nv("column", "author_id"),
            "nullable = true".to_string(),
            nv("primary_key", "id"),
        ])],
    }];
    let rels = extract_relations(&variants, &vec![], "users");
    assert_eq!(rels.len(), 1);
    let r = &rels[0];
    assert_eq!(r.kind, RelationKind::HasMany);
    assert_eq!(r.foreign_key_column.as_deref(), Some("author_id"));
    assert_eq!(r.primary_key_field.as_deref(), Some("id"));
    assert!(r.is_nullable);
    assert!(r.foreign_key_field.is_none());
    assert!(r.target_unique_param.is_none());
}

#[test]
fn single_key_from_without_separator_is_ignored() {
    let variants = vec![RelationVariant {
        name: "Thing".to_string(),
        attrs: vec![sea_orm(vec![nv("belongs_to", "super::thing::Entity"), nv("from", "AuthorId"), nv("to", "a::b::C")])],
    }];
    let rels = extract_relations(&variants, &vec![], "x");
    assert_eq!(rels.len(), 1);
    assert!(rels[0].foreign_key_field.is_none());
    assert_eq!(rels[0].foreign_key_column.as_deref(), Some("C"));
}

#[test]
fn single_key_target_without_segments_has_unknown_table() {
    let variants = vec![RelationVariant {
        name: "Weird".to_string(),
        attrs: vec![sea_orm(vec![nv("has_many", "Entity")])],
    }];
    let rels = extract_relations(&variants, &vec![], "x");
    assert_eq!(rels.len(), 1);
    assert_eq!(rels[0].target_table_name.as_deref(), Some("unknown"));
}

#[test]
fn single_key_needs_a_target() {
    let variants = vec![RelationVariant {
        name: "NoTarget".to_string(),
        attrs: vec![sea_orm(vec![nv("from", "Column::A"), nv("to", "Column::B")])],
    }];
    assert!(extract_relations(&variants, &vec![], "x").is_empty());
    let bad = vec![RelationVariant {
        name: "Bad".to_string(),
        attrs: vec![sea_orm(vec![nv("belongs_to", "1 + 2")])],
    }];
    assert!(try_extract_relations(&bad, &vec![], "x").is_none());
}
