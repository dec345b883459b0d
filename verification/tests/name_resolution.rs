use caustics_macros::entity::name_resolution::EntityNameContext;

#[test]
fn table_name_users_resolves_to_user() {
    let ctx = EntityNameContext::from_table_name("users");
    assert_eq!(ctx.entity_name, "User");
    assert_eq!(ctx.entity_name_snake, "user");
    assert_eq!(ctx.table_name, "users");
    assert_eq!(ctx.module_name, "user");
}

#[test]
fn table_name_with_underscores_gives_pascal_entity() {
    let ctx = EntityNameContext::from_table_name("blog_posts");
    assert_eq!(ctx.entity_name, "BlogPost");
    assert_eq!(ctx.entity_name_snake, "blog_post");
    assert_eq!(ctx.module_name, "blog_post");
}

#[test]
fn table_name_without_plural_s_is_kept() {
    let ctx = EntityNameContext::from_table_name("person");
    assert_eq!(ctx.entity_name_snake, "person");
    assert_eq!(ctx.entity_name, "Person");
}

#[test]
fn single_s_table_name_is_not_stripped() {
    let ctx = EntityNameContext::from_table_name("s");
    assert_eq!(ctx.entity_name_snake, "s");
    assert_eq!(ctx.table_name, "s");
}

#[test]
fn naive_singular_of_status() {
    let ctx = EntityNameContext::from_table_name("status");
    assert_eq!(ctx.entity_name_snake, "statu");
}

#[test]
fn entity_name_resolves_to_snake_and_table() {
    let ctx = EntityNameContext::from_entity_name("BlogPost");
    assert_eq!(ctx.entity_name, "BlogPost");
    assert_eq!(ctx.entity_name_snake, "blog_post");
    assert_eq!(ctx.table_name, "blog_posts");
    assert_eq!(ctx.module_name, "blog_post");
}

#[test]
fn module_name_resolves_to_pascal_and_table() {
    let ctx = EntityNameContext::from_module_name("blog_post");
    assert_eq!(ctx.entity_name, "BlogPost");
    assert_eq!(ctx.entity_name_snake, "blog_post");
    assert_eq!(ctx.table_name, "blog_posts");
    assert_eq!(ctx.module_name, "blog_post");
}

#[test]
fn getters_return_the_fields() {
    let ctx = EntityNameContext::from_entity_name("User");
    assert_eq!(ctx.registry_name(), "User");
    assert_eq!(ctx.fetcher_name(), "user");
    assert_eq!(ctx.table_name(), "users");
    assert_eq!(ctx.module_name(), "user");
}

#[test]
fn entity_table_round_trip() {
    let from_entity = EntityNameContext::from_entity_name("StudentCourse");
    let back = EntityNameContext::from_table_name(&from_entity.table_name);
    assert_eq!(back.entity_name_snake, from_entity.entity_name_snake);
    assert_eq!(back.module_name, from_entity.module_name);
    assert_eq!(back.table_name, from_entity.table_name);
    assert_eq!(back.entity_name, "StudentCourse");
}

#[test]
fn module_table_round_trip() {
    let from_module = EntityNameContext::from_module_name("course");
    let back = EntityNameContext::from_table_name(&from_module.table_name);
    assert_eq!(back.entity_name, from_module.entity_name);
    assert_eq!(back.entity_name_snake, from_module.entity_name_snake);
    assert_eq!(back.table_name, from_module.table_name);
    assert_eq!(back.module_name, from_module.module_name);
}

#[test]
fn empty_entity_name_does_not_round_trip() {
    let from_entity = EntityNameContext::from_entity_name("");
    assert_eq!(from_entity.table_name, "s");
    let back = EntityNameContext::from_table_name(&from_entity.table_name);
    assert_eq!(back.entity_name_snake, "s");
    assert_ne!(back.entity_name_snake, from_entity.entity_name_snake);
}
