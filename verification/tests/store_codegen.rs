use ontogen::schema::model::{EntityDef, FieldDef, FieldRole, FieldType, RelationInfo, RelationKind};
use ontogen::store::gen_crud::{active, generate_crud_impl, WikilinkPolicy};
use ontogen::store::gen_update::{
    generate_apply_method, generate_from_create_input, generate_from_update_input, generate_update_struct,
};
use ontogen::store::hooks::{generate_hook_file, generate_hooks_mod_rs, plan_hook_files};

fn make_role_entity() -> EntityDef {
    EntityDef {
        name: "Role".to_string(),
        doc: String::new(),
        directory: "role".to_string(),
        table: "roles".to_string(),
        type_tag: "role".to_string(),
        prefix: "role".to_string(),
        fields: vec![
            FieldDef::new("id", FieldType::String, FieldRole::Id),
            FieldDef::new("body", FieldType::String, FieldRole::Body),
        ],
    }
}

fn relation(kind: RelationKind, target: &str, junction: Option<&str>, fk: Option<&str>) -> FieldRole {
    FieldRole::Relation(RelationInfo {
        kind,
        target: target.to_string(),
        junction: junction.map(|s| s.to_string()),
        foreign_key: fk.map(|s| s.to_string()),
    })
}

fn make_node_entity() -> EntityDef {
    EntityDef {
        name: "Node".to_string(),
        doc: String::new(),
        directory: "node".to_string(),
        table: "nodes".to_string(),
        type_tag: "node".to_string(),
        prefix: "node".to_string(),
        fields: vec![
            FieldDef::new("id", FieldType::String, FieldRole::Id),
            FieldDef::new("name", FieldType::String, FieldRole::Plain),
            FieldDef::new("parent_id", FieldType::OptionString, relation(RelationKind::BelongsTo, "Node", None, None)),
            FieldDef::new(
                "contains",
                FieldType::VecString,
                relation(RelationKind::HasMany, "Node", None, Some("parent_id")),
            ),
            FieldDef::new(
                "fulfills",
                FieldType::VecString,
                relation(RelationKind::ManyToMany, "Requirement", Some("node_fulfills"), None),
            ),
            FieldDef::new("body", FieldType::String, FieldRole::Body),
        ],
    }
}

#[test]
fn test_update_struct_has_correct_fields() {
    let entity = make_role_entity();
    let mut code = String::new();
    generate_update_struct(&mut code, &entity);

    assert!(code.contains("pub struct RoleUpdate {"));
    assert!(code.contains("pub body: Option<String>"));
    assert!(!code.contains("pub id:"));
}

#[test]
fn test_apply_method_generated() {
    let entity = make_role_entity();
    let mut code = String::new();
    generate_apply_method(&mut code, &entity);

    assert!(code.contains("fn apply(&self, role: &mut Role)"));
    assert!(code.contains("role.body.clone_from(body)"));
}

#[test]
fn test_from_create_input() {
    let entity = make_role_entity();
    let mut code = String::new();
    generate_from_create_input(&mut code, &entity);

    assert!(code.contains("impl From<crate::schema::CreateRoleInput> for Role"));
    assert!(code.contains("id: input.id"));
    assert!(code.contains("body: input.body"));
}

#[test]
fn test_from_update_input() {
    let entity = make_role_entity();
    let mut code = String::new();
    generate_from_update_input(&mut code, &entity);

    assert!(code.contains("impl From<crate::schema::UpdateRoleInput> for RoleUpdate"));
    assert!(code.contains("body: input.body"));
}

#[test]
fn gen_update_generated_code_is_valid_rust() {
    let entity = make_role_entity();
    let mut code = String::new();
    generate_update_struct(&mut code, &entity);
    generate_apply_method(&mut code, &entity);
    generate_from_update_input(&mut code, &entity);
    generate_from_create_input(&mut code, &entity);

    syn::parse_file(&code)
        .unwrap_or_else(|e| panic!("store/gen_update emitted invalid Rust: {e}\n--- code ---\n{code}"));
}

#[test]
fn test_simple_entity_crud() {
    let entity = make_role_entity();
    let mut code = String::new();
    generate_crud_impl(&mut code, &entity);

    assert!(code.contains("fn list_roles("));
    assert!(code.contains("fn get_role("));
    assert!(code.contains("fn create_role("));
    assert!(code.contains("fn update_role("));
    assert!(code.contains("fn delete_role("));
    assert!(!code.contains("populate_role_relations"));
}

#[test]
fn test_complex_entity_has_populate_relations() {
    let entity = make_node_entity();
    let mut code = String::new();
    generate_crud_impl(&mut code, &entity);

    assert!(code.contains("populate_node_relations"));
    assert!(code.contains("sync_junction(\"node_fulfills\""));
    assert!(code.contains("set_node_parent"));
}

#[test]
fn test_junction_sync_in_create() {
    let entity = make_node_entity();
    let mut code = String::new();
    generate_crud_impl(&mut code, &entity);

    assert!(code.contains("let fulfills = node.fulfills.clone()"));
    assert!(code.contains("let contains = node.contains.clone()"));
}

#[test]
fn test_list_has_pagination_params() {
    let entity = make_role_entity();
    let mut code = String::new();
    generate_crud_impl(&mut code, &entity);

    assert!(
        code.contains("fn list_roles(&self, limit: Option<u64>, offset: Option<u64>)"),
        "list_roles should have pagination params, got:\n{code}"
    );
    assert!(code.contains("query = query.limit(l);"), "missing .limit() call");
    assert!(code.contains("query = query.offset(o);"), "missing .offset() call");
}

#[test]
fn test_update_tracks_junction_changes() {
    let entity = make_node_entity();
    let mut code = String::new();
    generate_crud_impl(&mut code, &entity);

    assert!(code.contains("let fulfills_changed = updates.fulfills.is_some()"));
    assert!(code.contains("let contains_changed = updates.contains.is_some()"));
    assert!(code.contains("if fulfills_changed {"));
    assert!(code.contains("if contains_changed {"));
}

#[test]
fn gen_crud_generated_code_is_valid_rust() {
    for entity in [make_role_entity(), make_node_entity()] {
        let mut code = String::new();
        generate_crud_impl(&mut code, &entity);
        syn::parse_file(&code).unwrap_or_else(|e| {
            panic!(
                "store::gen_crud::generate_crud_impl produced invalid Rust for entity '{}': {e}\n--- code ---\n{code}",
                entity.name
            )
        });
    }
}

#[test]
fn seaorm_preamble_imports_what_the_entity_uses() {
    let backend = active();
    let mut code = String::new();
    backend.emit_preamble(&mut code, &make_node_entity());
    assert_eq!(
        code,
        "use sea_orm::{ActiveModelTrait, EntityTrait, PaginatorTrait, QueryOrder, QuerySelect};\n\n\
use sea_orm::{ColumnTrait, QueryFilter};\n\
use crate::persistence::db::entities::node;\n"
    );
    let mut no_id = make_role_entity();
    no_id.fields.remove(0);
    let mut code = String::new();
    backend.emit_preamble(&mut code, &no_id);
    assert_eq!(
        code,
        "use sea_orm::{ActiveModelTrait, EntityTrait, PaginatorTrait, QuerySelect};\n\n\
use crate::persistence::db::entities::role;\n"
    );
    assert_eq!(backend.wikilink_policy(), WikilinkPolicy::Passthrough);
}

#[test]
fn test_hook_file_has_all_lifecycle_functions() {
    let entity = make_role_entity();
    let code = generate_hook_file(&entity);

    assert!(code.contains("pub async fn before_create("));
    assert!(code.contains("pub async fn after_create("));
    assert!(code.contains("pub async fn before_update("));
    assert!(code.contains("pub async fn after_update("));
    assert!(code.contains("pub async fn before_delete("));
    assert!(code.contains("pub async fn after_delete("));
}

#[test]
fn test_hook_file_uses_correct_types() {
    let entity = make_role_entity();
    let code = generate_hook_file(&entity);

    assert!(code.contains("use crate::schema::{Role, AppError};"));
    assert!(code.contains("use crate::store::generated::role::RoleUpdate;"));
    assert!(code.contains("_role: &mut Role"));
    assert!(code.contains("_updates: &RoleUpdate"));
}

#[test]
fn test_hook_file_is_never_overwritten() {
    // First scaffold: nothing exists yet, so the file is planned.
    let planned = plan_hook_files(&vec![make_role_entity()], &vec![]);
    let names: Vec<&str> = planned.iter().map(|(n, _)| n.as_str()).collect();
    assert_eq!(names, vec!["role"]);

    // Second scaffold: the file exists, so nothing is planned.
    let planned = plan_hook_files(&vec![make_role_entity()], &vec!["role".to_string()]);
    assert!(planned.is_empty());
}

#[test]
fn hooks_mod_rs_declares_present_files_in_name_order() {
    let mut tag = make_role_entity();
    tag.name = "Tag".to_string();
    let code = generate_hooks_mod_rs(&vec![tag, make_role_entity(), make_node_entity()], &vec!["tag".to_string(), "role".to_string()]);
    assert_eq!(
        code,
        "//! Hook modules \u{2014} regenerated each build to track entities.\n\
//! Each module file is scaffolded once and never overwritten.\n\n\
pub mod role;\npub mod tag;\n"
    );
}

fn lines_with<'a>(code: &'a str, needle: &str) -> Vec<&'a str> {
    code.lines().map(str::trim).filter(|l| l.contains(needle)).collect()
}

#[test]
fn both_backends_call_the_same_hooks_and_emit_the_same_changes() {
    let entity = EntityDef {
        name: "Node".to_string(),
        doc: String::new(),
        directory: "nodes".to_string(),
        table: "nodes".to_string(),
        type_tag: "node".to_string(),
        prefix: "node".to_string(),
        fields: vec![
            FieldDef::new("id", FieldType::String, FieldRole::Id),
            FieldDef::new("name", FieldType::String, FieldRole::Plain),
            FieldDef::new(
                "contains",
                FieldType::VecString,
                FieldRole::Relation(RelationInfo {
                    kind: RelationKind::HasMany,
                    target: "Node".to_string(),
                    junction: None,
                    foreign_key: Some("parent_id".to_string()),
                }),
            ),
        ],
    };
    let mut sea = String::new();
    generate_crud_impl(&mut sea, &entity);
    let mut md = String::new();
    ontogen::store::markdown::generate_crud_impl(&mut md, &entity, Some("name"));
    for needle in ["hooks::", "emit_change(", "contains_changed"] {
        assert_eq!(lines_with(&sea, needle), lines_with(&md, needle), "lines with {needle}");
    }
    assert_eq!(lines_with(&sea, "hooks::").len(), 6);
}
