use caustics_macros::caustics::{client_method_names, plan_caustics_impl, register, CausticsImplError};

#[test]
fn derive_plan_for_named_struct() {
    let plan = plan_caustics_impl("pub struct Model { pub id: i32, pub author_id: Option<i32>, created_at: DateTime }")
        .unwrap();
    assert_eq!(plan.entity_name, "Model");
    let names: Vec<String> = plan.fields.iter().map(|f| f.name.clone()).collect();
    assert_eq!(names, vec!["id", "author_id", "created_at"]);
    assert_eq!(plan.column_variants, vec!["Id", "AuthorId", "CreatedAt"]);
}

#[test]
fn derive_plan_rejects_other_inputs() {
    assert!(matches!(plan_caustics_impl("fn main() {}"), Err(CausticsImplError::NotDeriveInput)));
    assert!(matches!(plan_caustics_impl("not rust at all {"), Err(CausticsImplError::NotDeriveInput)));
    match plan_caustics_impl("struct Pair(i32, i32);") {
        Err(CausticsImplError::NotNamedStruct(name)) => assert_eq!(name, "Pair"),
        other => panic!("unexpected: {:?}", other.map(|p| p.entity_name)),
    }
    match plan_caustics_impl("enum Kind { A, B }") {
        Err(CausticsImplError::NotNamedStruct(name)) => assert_eq!(name, "Kind"),
        other => panic!("unexpected: {:?}", other.map(|p| p.entity_name)),
    }
}

#[test]
fn register_keeps_each_name_once() {
    let mut names: Vec<String> = Vec::new();
    register(&mut names, "User".to_string());
    register(&mut names, "Post".to_string());
    register(&mut names, "User".to_string());
    assert_eq!(names, vec!["User", "Post"]);
}

#[test]
fn client_methods_are_lowercase_names() {
    let names = vec!["User".to_string(), "BlogPost".to_string()];
    assert_eq!(client_method_names(&names), vec!["user", "blogpost"]);
}
