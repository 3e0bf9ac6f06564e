use ontogen::clients::config::Config;
use ontogen::clients::ts_bindings::{
    emit, emit_entity, emit_update_dto, entity_field_type_names, field_to_ts, field_type_user_ident,
    is_simple_user_ident, long_tail, referenced_ts_types, schema_known_names,
};
use ontogen::schema::model::{EntityDef, FieldDef, FieldRole, FieldType};
use ontogen::servers::parse::{ApiFn, ApiModule, Param};
use ontogen::servers::types::{NamingConfig, Overrides};

fn empty_config() -> Config {
    Config {
        api_dir: "/tmp/does-not-matter".to_string(),
        state_type: String::new(),
        service_import_path: String::new(),
        types_import_path: String::new(),
        state_import: String::new(),
        naming: NamingConfig::default(),
        generators: Vec::new(),
        sse_route_overrides: Overrides::new(),
        ts_skip_commands: Vec::new(),
        route_prefix: None,
        store_type: None,
        store_import: None,
        schema_entities: Vec::new(),
        schema_enums: Vec::new(),
        label_overrides: Overrides::new(),
        pagination: None,
        pool_extra_roots: Vec::new(),
        pool_exclude_paths: Vec::new(),
        extra_surfaces: Vec::new(),
    }
}

fn entity_with_fields(name: &str, fields: Vec<FieldDef>) -> EntityDef {
    EntityDef {
        name: name.to_string(),
        doc: String::new(),
        directory: name.to_ascii_lowercase(),
        table: name.to_ascii_lowercase(),
        type_tag: name.to_ascii_lowercase(),
        prefix: name.to_ascii_lowercase(),
        fields,
    }
}

fn param(name: &str, ty: &str) -> Param {
    let mut p = Param::default();
    p.name = name.to_string();
    p.ty = ty.to_string();
    p
}

fn api_fn(name: &str, params: Vec<Param>, return_type: &str) -> ApiFn {
    let mut f = ApiFn::default();
    f.name = name.to_string();
    f.params = params;
    f.return_type = return_type.to_string();
    f
}

#[test]
fn is_simple_user_ident_accepts_pascal_case_ident() {
    assert!(is_simple_user_ident("IntervalKind"));
    assert!(is_simple_user_ident("SessionStatus"));
    assert!(is_simple_user_ident("MyType2"));
}

#[test]
fn is_simple_user_ident_rejects_primitives() {
    assert!(!is_simple_user_ident("String"));
    assert!(!is_simple_user_ident("i64"));
    assert!(!is_simple_user_ident("bool"));
}

#[test]
fn is_simple_user_ident_rejects_qualified_and_generic_shapes() {
    assert!(!is_simple_user_ident("chrono::DateTime"));
    assert!(!is_simple_user_ident("HashMap<String, i32>"));
    assert!(!is_simple_user_ident("Vec<Foo>"));
    assert!(!is_simple_user_ident("&str"));
    assert!(!is_simple_user_ident(""));
    assert!(!is_simple_user_ident("2Hot"));
}

#[test]
fn field_type_user_ident_extracts_enum_and_vec_struct_names() {
    assert_eq!(field_type_user_ident(&FieldType::OptionEnum("IntervalKind".into())), Some("IntervalKind".into()));
    assert_eq!(
        field_type_user_ident(&FieldType::VecStruct("AcceptanceCriterion".into())),
        Some("AcceptanceCriterion".into())
    );
}

#[test]
fn field_type_user_ident_ignores_primitives_and_strings() {
    assert_eq!(field_type_user_ident(&FieldType::String), None);
    assert_eq!(field_type_user_ident(&FieldType::OptionString), None);
    assert_eq!(field_type_user_ident(&FieldType::VecString), None);
    assert_eq!(field_type_user_ident(&FieldType::I64), None);
    assert_eq!(field_type_user_ident(&FieldType::Bool), None);
}

#[test]
fn field_type_user_ident_handles_other_simple_ident_and_skips_complex_paths() {
    assert_eq!(field_type_user_ident(&FieldType::Other("MyOpaque".into())), Some("MyOpaque".into()));
    assert_eq!(field_type_user_ident(&FieldType::Other("chrono :: DateTime < Utc >".into())), None);
    assert_eq!(field_type_user_ident(&FieldType::Other("HashMap < String , i32 >".into())), None);
}

#[test]
fn other_field_type_is_trimmed_before_the_ident_check() {
    assert_eq!(field_type_user_ident(&FieldType::Other("  Padded ".into())), Some("Padded".into()));
}

#[test]
fn entity_field_type_names_collects_user_idents_across_fields() {
    let entity = entity_with_fields(
        "TimerSession",
        vec![
            FieldDef::new("id", FieldType::String, FieldRole::Id),
            FieldDef::new("interval_kind", FieldType::OptionEnum("IntervalKind".into()), FieldRole::EnumField),
            FieldDef::new("status", FieldType::OptionEnum("SessionStatus".into()), FieldRole::EnumField),
            FieldDef::new("note", FieldType::OptionString, FieldRole::Plain),
        ],
    );
    let names = entity_field_type_names(&vec![entity]);
    assert!(names.contains(&"IntervalKind".to_string()), "missing IntervalKind in {names:?}");
    assert!(names.contains(&"SessionStatus".to_string()), "missing SessionStatus in {names:?}");
    assert_eq!(names.len(), 2, "unexpected extras in {names:?}");
}

#[test]
fn entity_field_type_names_skips_skip_role_fields() {
    let entity = entity_with_fields(
        "Thing",
        vec![
            FieldDef::new("id", FieldType::String, FieldRole::Id),
            FieldDef::new("ignored", FieldType::OptionEnum("HiddenEnum".into()), FieldRole::Skip),
        ],
    );
    let names = entity_field_type_names(&vec![entity]);
    assert!(names.is_empty(), "expected no roots from Skip field, got {names:?}");
}

#[test]
fn long_tail_includes_entity_field_type_idents_not_in_schema_known_surface() {
    let entity = entity_with_fields(
        "TimerSession",
        vec![
            FieldDef::new("id", FieldType::String, FieldRole::Id),
            FieldDef::new("interval_kind", FieldType::OptionEnum("IntervalKind".into()), FieldRole::EnumField),
        ],
    );
    let entities = vec![entity];
    let names = long_tail(&vec![], &empty_config(), &entities);
    assert!(names.contains(&"IntervalKind".to_string()), "missing IntervalKind in {names:?}");
}

#[test]
fn long_tail_excludes_entity_names_already_emitted_by_schema_known() {
    let other = entity_with_fields("Other", vec![FieldDef::new("id", FieldType::String, FieldRole::Id)]);
    let parent = entity_with_fields(
        "Parent",
        vec![
            FieldDef::new("id", FieldType::String, FieldRole::Id),
            FieldDef::new("rel", FieldType::Other("Other".into()), FieldRole::Plain),
        ],
    );
    let entities = vec![other, parent];
    let names = long_tail(&vec![], &empty_config(), &entities);
    assert!(!names.contains(&"Other".to_string()), "schema-known name leaked into long_tail: {names:?}");
}

#[test]
fn schema_known_names_are_entities_and_their_dtos() {
    let entities = vec![entity_with_fields("Note", vec![])];
    assert_eq!(schema_known_names(&entities), vec!["Note", "CreateNoteInput", "UpdateNoteInput"]);
}

#[test]
fn referenced_types_are_sorted_without_repeats_and_skip_listed_commands() {
    let module = ApiModule {
        name: "note".to_string(),
        functions: vec![
            api_fn("list", vec![], "Vec<Note>"),
            api_fn("create", vec![param("input", "CreateNoteInput")], "Note"),
            api_fn("archive", vec![param("id", "&str")], "ArchiveReport"),
            api_fn("secret", vec![], "SecretThing"),
        ],
        events: vec![],
        is_singleton: false,
    };
    let mut config = empty_config();
    config.ts_skip_commands = vec!["note_secret".to_string()];
    let names = referenced_ts_types(&vec![module], &config);
    assert_eq!(names, vec!["ArchiveReport", "CreateNoteInput", "Note"]);

    // The long tail drops what the schema-known emitter writes.
    let entities = vec![entity_with_fields("Note", vec![])];
    let module = ApiModule {
        name: "note".to_string(),
        functions: vec![api_fn("archive", vec![param("id", "&str")], "ArchiveReport"), api_fn("list", vec![], "Vec<Note>")],
        events: vec![],
        is_singleton: false,
    };
    assert_eq!(long_tail(&vec![module], &config, &entities), vec!["ArchiveReport"]);
}

#[test]
fn field_types_map_to_typescript() {
    assert_eq!(field_to_ts(&FieldType::OptionI64), "number | null");
    assert_eq!(field_to_ts(&FieldType::VecStruct("Step".into())), "Step[]");
    assert_eq!(field_to_ts(&FieldType::OptionEnum("Kind".into())), "Kind | null");
    assert_eq!(field_to_ts(&FieldType::VecString), "string[]");
    assert_eq!(field_to_ts(&FieldType::Other("Blob".into())), "Blob");
}

#[test]
fn schema_known_emit_writes_entity_and_dtos() {
    let entity = entity_with_fields(
        "Note",
        vec![
            FieldDef::new("id", FieldType::String, FieldRole::Id),
            FieldDef::new("title", FieldType::OptionString, FieldRole::Plain),
            FieldDef::new("cache", FieldType::String, FieldRole::Skip),
            FieldDef::new("source_file", FieldType::String, FieldRole::Plain),
        ],
    );
    assert_eq!(emit_entity(&entity), "export type Note = {\n  id: string;\n  title: string | null;\n};\n");
    assert_eq!(emit_update_dto(&entity), "export type UpdateNoteInput = {\n  title?: string | null | null;\n  cache?: string | null;\n};\n");
    let all = emit(&vec![entity]);
    assert!(all.starts_with("// Auto-generated by ontogen. DO NOT EDIT.\n// Schema-known surface: entities + generated Create/Update DTOs.\n\n"));
    assert!(all.contains("export type CreateNoteInput = {\n  id: string;\n  title: string | null;\n  cache: string;\n};\n\n"));
}
