use caustics_macros::attrs::{Attribute, FieldType, ModelField};
use caustics_macros::entity::fetcher_plan::{plan_fetcher, plan_fetchers};
use caustics_macros::entity::field_plan::{
    atomic_field_indices, current_primary_key, field_kinds, has_caustics_default,
    is_auto_increment_field, plan_create, plan_unique_where, required_relation_indices,
    scalar_kind, ScalarKind,
};
use caustics_macros::entity::types::{PathSegment, Relation, RelationKind, TargetPath};

fn attr(path: &str, tokens: &str) -> Attribute {
    Attribute::List { path_ident: Some(path.to_string()), tokens: tokens.to_string() }
}

fn ty(text: &str, last: &str, inner: Option<&str>) -> FieldType {
    FieldType {
        text: text.to_string(),
        last_segment: Some(last.to_string()),
        inner_segment: inner.map(|s| s.to_string()),
    }
}

fn field(name: &str, t: FieldType, attrs: Vec<Attribute>) -> ModelField {
    ModelField { name: name.to_string(), ty: t, attrs }
}

fn relation(name: &str, kind: RelationKind) -> Relation {
    Relation {
        name: name.to_string(),
        target: TargetPath {
            leading_colon: false,
            segments: vec![
                PathSegment { ident: "super".to_string(), arguments: syn::PathArguments::None },
                PathSegment { ident: "user".to_string(), arguments: syn::PathArguments::None },
            ],
        },
        kind,
        foreign_key_field: None,
        foreign_key_type: None,
        foreign_key_column: None,
        primary_key_field: None,
        foreign_key_fields: vec![],
        foreign_key_types: vec![],
        foreign_key_columns: vec![],
        target_primary_key_fields: vec![],
        target_primary_key_columns: vec![],
        target_unique_param: None,
        is_nullable: false,
        target_entity_name: None,
        current_table_name: None,
        is_composite: false,
        composite_key_mapping: vec![],
        custom_field_name: None,
        target_fk_is_optional: None,
    }
}

#[test]
fn scalar_kinds_of_field_types() {
    assert_eq!(scalar_kind(&ty("i64", "i64", None)), ScalarKind::Integer);
    assert_eq!(scalar_kind(&ty("Option<u8>", "Option", Some("u8"))), ScalarKind::Integer);
    assert_eq!(scalar_kind(&ty("f64", "f64", None)), ScalarKind::Float);
    assert_eq!(scalar_kind(&ty("bool", "bool", None)), ScalarKind::Boolean);
    assert_eq!(scalar_kind(&ty("DateTime<Utc>", "DateTime", Some("Utc"))), ScalarKind::DateTime);
    assert_eq!(scalar_kind(&ty("Option<NaiveDate>", "Option", Some("NaiveDate"))), ScalarKind::NaiveDate);
    assert_eq!(scalar_kind(&ty("NaiveDateTime", "NaiveDateTime", None)), ScalarKind::NaiveDateTime);
    assert_eq!(scalar_kind(&ty("Vec<String>", "Vec", Some("String"))), ScalarKind::Vec);
    assert_eq!(scalar_kind(&ty("serde_json::Value", "Value", None)), ScalarKind::Json);
    assert_eq!(scalar_kind(&ty("String", "String", None)), ScalarKind::Other);
    assert_eq!(scalar_kind(&FieldType { text: "&str".to_string(), last_segment: None, inner_segment: None }), ScalarKind::Other);
}

#[test]
fn primary_key_defaults_to_id() {
    assert_eq!(current_primary_key(&vec![field("name", ty("String", "String", None), vec![])]), "id");
    let fields = vec![
        field("name", ty("String", "String", None), vec![]),
        field("code", ty("String", "String", None), vec![attr("sea_orm", "primary_key")]),
    ];
    assert_eq!(current_primary_key(&fields), "code");
}

#[test]
fn auto_increment_and_defaults_are_read() {
    let auto = field("id", ty("i32", "i32", None), vec![attr("sea_orm", "primary_key")]);
    let manual = field("id", ty("i32", "i32", None), vec![attr("sea_orm", "primary_key, auto_increment = false")]);
    let plain = field("n", ty("i32", "i32", None), vec![]);
    assert!(is_auto_increment_field(&auto));
    assert!(!is_auto_increment_field(&manual));
    assert!(!is_auto_increment_field(&plain));
    let stamped = field("created_at", ty("DateTime<Utc>", "DateTime", Some("Utc")), vec![attr("caustics", "default")]);
    assert!(has_caustics_default(&stamped));
    assert!(!has_caustics_default(&plain));
}

#[test]
fn unique_where_with_composite_key() {
    let fields = vec![
        field("student_id", ty("i32", "i32", None), vec![attr("sea_orm", "primary_key, auto_increment = false")]),
        field("course_id", ty("i32", "i32", None), vec![attr("sea_orm", "primary_key, auto_increment = false")]),
        field("code", ty("String", "String", None), vec![attr("sea_orm", "unique")]),
    ];
    let plan = plan_unique_where(&fields);
    assert_eq!(plan.fields, vec![0, 1, 2]);
    assert_eq!(plan.variants, vec!["StudentIdEquals", "CourseIdEquals", "CodeEquals"]);
    assert_eq!(plan.key_typed, vec![true, true, false]);
    assert_eq!(plan.composite_variant.as_deref(), Some("StudentIdAndCourseId"));
    let single = plan_unique_where(&vec![fields[0].clone()]);
    assert!(single.composite_variant.is_none());
}

#[test]
fn create_plan_takes_required_fields() {
    let fields = vec![
        field("id", ty("i32", "i32", None), vec![attr("sea_orm", "primary_key")]),
        field("title", ty("String", "String", None), vec![]),
        field("body", ty("Option<String>", "Option", Some("String")), vec![]),
        field("author_id", ty("i32", "i32", None), vec![]),
        field("created_at", ty("DateTime<Utc>", "DateTime", Some("Utc")), vec![attr("caustics", "default")]),
        field("views", ty("i64", "i64", None), vec![]),
    ];
    let mut author = relation("Author", RelationKind::BelongsTo);
    author.foreign_key_fields = vec!["author_id".to_string()];
    author.foreign_key_field = Some("author_id".to_string());
    let relations = vec![author];
    let plan = plan_create(&fields, &relations);
    assert_eq!(plan.fields, vec![1, 5]);
    assert_eq!(plan.relations, vec![0]);
    assert!(!plan.include_primary_keys);
    assert!(!plan.composite_primary_key);
    assert_eq!(plan.primary_key, "id");
    assert!(!plan.uuid_primary_key);
    assert_eq!(plan.default_fields, vec![4]);
    assert!(plan.takes_current_time);
    assert_eq!(required_relation_indices(&relations, &fields), vec![0]);
    assert_eq!(atomic_field_indices(&fields), vec![3, 5]);
    assert_eq!(field_kinds(&fields)[4], ScalarKind::DateTime);
}

#[test]
fn create_plan_includes_composite_keys() {
    let fields = vec![
        field("student_id", ty("i32", "i32", None), vec![attr("sea_orm", "primary_key, auto_increment = false")]),
        field("course_id", ty("i32", "i32", None), vec![attr("sea_orm", "primary_key, auto_increment = false")]),
    ];
    let plan = plan_create(&fields, &vec![]);
    assert!(plan.include_primary_keys);
    assert!(plan.composite_primary_key);
    assert_eq!(plan.fields, vec![0, 1]);
    assert!(!plan.takes_current_time);
}

#[test]
fn fetcher_keys_for_belongs_to_and_composite() {
    let mut b = relation("Author", RelationKind::BelongsTo);
    b.foreign_key_columns = vec!["AuthorId".to_string(), "author_id".to_string()];
    b.target_primary_key_columns = vec!["id".to_string()];
    b.primary_key_field = Some("id".to_string());
    let f = plan_fetcher(&b, "post_id");
    assert_eq!(f.relation_name, "author");
    assert_eq!(f.foreign_key_column.as_deref(), Some("AuthorId"));
    assert_eq!(f.foreign_key_column_snake.as_deref(), Some("author_id"));
    assert_eq!(f.lookup_column.as_deref(), Some("Id"));
    assert_eq!(f.target_primary_key.as_deref(), Some("id"));
    assert_eq!(f.target_primary_key_column.as_deref(), Some("Id"));
    assert_eq!(f.target_entity.as_deref(), Some("user"));

    let mut h = relation("Grades", RelationKind::HasMany);
    h.is_composite = true;
    h.foreign_key_columns = vec!["student_id".to_string(), "course_id".to_string()];
    let g = plan_fetcher(&h, "id");
    assert_eq!(g.lookup_column.as_deref(), Some("StudentId"));
    assert_eq!(g.target_primary_key.as_deref(), Some("id"));
    assert_eq!(g.composite_columns, vec!["StudentId", "CourseId"]);

    let none = relation("Loose", RelationKind::BelongsTo);
    let n = plan_fetcher(&none, "id");
    assert!(n.foreign_key_column.is_none());
    assert!(n.lookup_column.is_none());
    assert!(n.target_primary_key.is_none());
    assert_eq!(plan_fetchers(&vec![b, h], "id").len(), 2);
}
