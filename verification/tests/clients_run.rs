use ontogen::clients::config::{ClientGenerator, Config, FallbackRecord};
use ontogen::clients::{
    append_long_tail, extra_root_crate_name, strip_long_tail, LONG_TAIL_MARKER, bindings_targets, generate, is_excluded, resolve_roots, ts_params_in_declaration_order,
    Resolution,
};
use ontogen::schema::model::{EntityDef, FieldDef, FieldRole, FieldType};
use ontogen::servers::merge::ScanResult;
use ontogen::servers::parse::{ApiFn, ApiModule, Param};
use ontogen::servers::types::{NamingConfig, Overrides};

fn config() -> Config {
    Config {
        api_dir: "src/api/v1".to_string(),
        state_type: "AppState".to_string(),
        service_import_path: "crate::api::v1".to_string(),
        types_import_path: "crate::schema".to_string(),
        state_import: "crate::AppState".to_string(),
        naming: NamingConfig::default(),
        generators: vec![
            ClientGenerator::HttpTs { output: "http.ts".to_string(), bindings_path: "bindings.ts".to_string() },
            ClientGenerator::AdminRegistry { output: "admin.ts".to_string() },
            ClientGenerator::HttpTauriIpcSplit {
                output: "transport.ts".to_string(),
                bindings_path: "bindings.ts".to_string(),
            },
            ClientGenerator::HttpTs { output: "other.ts".to_string(), bindings_path: "other/bindings.ts".to_string() },
        ],
        sse_route_overrides: Overrides::new(),
        ts_skip_commands: Vec::new(),
        route_prefix: None,
        store_type: None,
        store_import: None,
        schema_entities: vec![EntityDef {
            name: "Note".to_string(),
            doc: String::new(),
            directory: "notes".to_string(),
            table: "notes".to_string(),
            type_tag: "note".to_string(),
            prefix: "note".to_string(),
            fields: vec![FieldDef::new("id", FieldType::String, FieldRole::Id)],
        }],
        schema_enums: Vec::new(),
        label_overrides: Overrides::new(),
        pagination: None,
        pool_extra_roots: Vec::new(),
        pool_exclude_paths: Vec::new(),
        extra_surfaces: Vec::new(),
    }
}

fn param(name: &str, ty: &str) -> Param {
    let mut p = Param::default();
    p.name = name.to_string();
    p.ty = ty.to_string();
    p
}

fn api_fn(name: &str, params: Vec<Param>, return_type: &str) -> ApiFn {
    let mut f = ApiFn::default();
    f.name = name.to_string();
    f.params = params;
    f.return_type = return_type.to_string();
    f
}

#[test]
fn ts_params_keep_declaration_order() {
    let f = api_fn(
        "search",
        vec![param("page_size", "Option<u64>"), param("input", "&SearchInput"), param("node_id", "&str")],
        "Vec<Node>",
    );
    assert_eq!(
        ts_params_in_declaration_order(&f),
        vec!["pageSize: number | null", "input: SearchInput", "nodeId: string"]
    );
}

#[test]
fn bindings_files_are_distinct_in_order() {
    assert_eq!(bindings_targets(&config().generators), vec!["bindings.ts", "other/bindings.ts"]);
}

#[test]
fn long_tail_section_is_appended_with_marker_and_newline() {
    assert_eq!(
        append_long_tail("export type Note = { id: string };\n", "export type Kind = 'a';"),
        "export type Note = { id: string };\n\n// Long-tail types (emitted via ontogen-ts AST walker).\nexport type Kind = 'a';\n"
    );
    assert_eq!(append_long_tail("", "x\n"), "// Long-tail types (emitted via ontogen-ts AST walker).\nx\n");
}

#[test]
fn pool_entries_under_an_excluded_prefix_are_dropped() {
    let segs = vec!["persistence".to_string(), "db".to_string(), "Relation".to_string()];
    let prefixes = vec![vec!["api".to_string()], vec!["persistence".to_string(), "db".to_string()]];
    assert!(is_excluded(&segs, &prefixes));
    assert!(!is_excluded(&vec!["persistence".to_string()], &prefixes));
    assert!(!is_excluded(&segs, &vec![]));
}

#[test]
fn missing_long_tail_names_fail_before_ambiguous_ones() {
    let names = vec!["A".to_string(), "B".to_string(), "C".to_string()];
    let resolutions = vec![
        Resolution::Resolved(vec!["types".to_string(), "A".to_string()]),
        Resolution::Ambiguous(vec!["x::B".to_string(), "y::B".to_string()]),
        Resolution::NotInPool,
    ];
    let err = resolve_roots(&names, &resolutions, "/app/src").unwrap_err();
    assert_eq!(err.message, "ontogen-ts: 1 long-tail type(s) not found in pool");
    assert_eq!(err.warnings, vec!["ontogen-ts: long-tail type `C` not found in `/app/src`"]);

    let err = resolve_roots(&names[..2].to_vec(), &resolutions[..2].to_vec(), "/app/src").unwrap_err();
    assert_eq!(err.message, "ontogen-ts: 1 ambiguous long-tail type name(s)");
    assert_eq!(
        err.warnings,
        vec![
            "ontogen-ts: long-tail type `B` is ambiguous \u{2014} multiple pool entries share that name: x::B, y::B; qualify it or rename one"
        ]
    );

    let roots = resolve_roots(&names[..1].to_vec(), &resolutions[..1].to_vec(), "/app/src").unwrap();
    assert_eq!(roots, vec![vec!["types".to_string(), "A".to_string()]]);
}

#[test]
fn fallback_record_message_names_type_and_files() {
    let r = FallbackRecord {
        output: "app/transport.ts".to_string(),
        bindings_path: "app/bindings.ts".to_string(),
        type_ident: "Report".to_string(),
    };
    assert_eq!(
        r.message(),
        "ontogen: type 'Report' not found in `app/bindings.ts` - using `Record<string, unknown>` placeholder in `app/transport.ts`"
    );
}

#[test]
fn client_run_fails_without_the_api_dir() {
    let scanned = ScanResult { modules: vec![], skips: vec![] };
    let err = generate(false, scanned, &config(), &vec![]).unwrap_err();
    assert_eq!(err, "API directory does not exist: src/api/v1");
}

#[test]
fn client_run_with_no_module_writes_nothing() {
    let run = generate(true, ScanResult { modules: vec![], skips: vec![] }, &config(), &vec![]).unwrap();
    assert!(run.bindings.is_empty());
    assert!(run.long_tail.is_empty());
    assert!(run.schema_ts.is_empty());
}

#[test]
fn client_run_picks_bindings_and_long_tail() {
    let module = ApiModule {
        name: "note".to_string(),
        functions: vec![api_fn("archive", vec![param("id", "&str")], "ArchiveReport"), api_fn("list", vec![], "Vec<Note>")],
        events: vec![],
        is_singleton: false,
    };
    let mut cfg = config();
    cfg.naming.singleton_modules = vec!["note".to_string()];
    cfg.naming.command_overrides.insert("note::archive".to_string(), "archive_note".to_string());
    let run = generate(true, ScanResult { modules: vec![module], skips: vec![] }, &cfg, &vec![]).unwrap();
    assert!(run.modules[0].is_singleton);
    assert_eq!(run.modules[0].functions[0].command_override.as_deref(), Some("archive_note"));
    assert_eq!(run.bindings, vec!["bindings.ts", "other/bindings.ts"]);
    assert!(run.schema_ts.contains("export type Note = {\n  id: string;\n};\n"));
    assert_eq!(run.long_tail, vec!["ArchiveReport"]);
}

const LONG_TAIL_TS: &str = "export type RuleCategory = 'Heading' | 'List' | 'Other';";

const SCHEMA_KNOWN: &str = "export type Note = { id: string };\n";

#[test]
fn unformatted_config_still_writes_the_section_verbatim() {
    let written = append_long_tail(SCHEMA_KNOWN, LONG_TAIL_TS);
    assert!(written.starts_with(SCHEMA_KNOWN), "base was altered; file was:\n{written}");
    assert!(written.contains(LONG_TAIL_TS), "raw long-tail missing; file was:\n{written}");
}

#[test]
fn rerunning_replaces_the_section_rather_than_doubling_it() {
    let first = append_long_tail(SCHEMA_KNOWN, LONG_TAIL_TS);
    let second = append_long_tail(&first, LONG_TAIL_TS);
    assert_eq!(first, second, "rebuild was not a fixpoint");
    assert_eq!(second.matches(LONG_TAIL_MARKER).count(), 1, "section doubled:\n{second}");
}

#[test]
fn changed_long_tail_replaces_the_previous_section() {
    let first = append_long_tail(SCHEMA_KNOWN, "export type Old = 'a';");
    let written = append_long_tail(&first, "export type New = 'b';");
    assert!(written.contains("export type New"), "new section missing; file was:\n{written}");
    assert!(!written.contains("export type Old"), "stale section survived; file was:\n{written}");
    assert!(written.starts_with(SCHEMA_KNOWN), "base was lost; file was:\n{written}");
}

#[test]
fn missing_bindings_file_is_created() {
    let first = append_long_tail("", LONG_TAIL_TS);
    assert!(first.starts_with(LONG_TAIL_MARKER), "file was:\n{first}");
    assert_eq!(first, append_long_tail(&first, LONG_TAIL_TS));
}

#[test]
fn strip_long_tail_handles_a_file_without_the_marker() {
    assert_eq!(strip_long_tail(SCHEMA_KNOWN), SCHEMA_KNOWN.trim_end());
    assert_eq!(strip_long_tail(""), "");
}

#[test]
fn strip_long_tail_keeps_what_precedes_the_section() {
    let written = append_long_tail(SCHEMA_KNOWN, LONG_TAIL_TS);
    assert_eq!(strip_long_tail(&written), SCHEMA_KNOWN.trim_end());
    assert_eq!(strip_long_tail("a\n\n// Long-tail types (emitted via ontogen-ts AST walker).\nb\n"), "a");
}

#[test]
fn extra_root_crate_name_prefers_the_manifest_package_name() {
    let manifest = "[package]\nname = \"vaultpolish-core\"\nversion = \"0.1.0\"\n";
    assert_eq!(extra_root_crate_name(Some(manifest), "core-checkout"), "vaultpolish_core");
}

#[test]
fn extra_root_crate_name_falls_back_to_the_directory() {
    assert_eq!(extra_root_crate_name(None, "vaultpolish-core"), "vaultpolish_core");
    assert_eq!(extra_root_crate_name(Some("[workspace]\n"), "my-dir"), "my_dir");
}

fn id_only_entity(name: &str) -> EntityDef {
    EntityDef {
        name: name.to_string(),
        doc: String::new(),
        directory: name.to_ascii_lowercase(),
        table: name.to_ascii_lowercase(),
        type_tag: name.to_ascii_lowercase(),
        prefix: name.to_ascii_lowercase(),
        fields: vec![FieldDef::new("id", FieldType::String, FieldRole::Id)],
    }
}

#[test]
fn test_two_surfaces_same_entity_name_is_error() {
    let mut cfg = config();
    cfg.schema_entities = vec![id_only_entity("Workout")];
    cfg.generators = vec![ClientGenerator::AdminRegistry { output: "admin-registry.ts".to_string() }];
    let surfaces = vec![vec![id_only_entity("Workout")]];
    let err = generate(true, ScanResult { modules: vec![], skips: vec![] }, &cfg, &surfaces)
        .expect_err("an entity name shared by two surfaces must fail");
    assert!(err.contains("entity `Workout`"), "{err}");
    assert!(err.contains("more than one API surface"), "{err}");
}

#[test]
fn entities_of_distinct_names_across_surfaces_are_accepted() {
    let mut cfg = config();
    cfg.schema_entities = vec![id_only_entity("Workout")];
    let surfaces = vec![vec![id_only_entity("Athlete")], vec![id_only_entity("Invoice"), id_only_entity("Athlete")]];
    let err = generate(true, ScanResult { modules: vec![], skips: vec![] }, &cfg, &surfaces).unwrap_err();
    assert_eq!(err, "entity `Athlete` is defined by more than one API surface");
    let ok = generate(true, ScanResult { modules: vec![], skips: vec![] }, &cfg, &vec![vec![id_only_entity("Athlete")]]);
    assert!(ok.is_ok());
}
