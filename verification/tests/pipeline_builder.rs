use ontogen::pipeline::{resolve_store_backend, servers_config_with_entities, Pipeline, StoreBackendChoice};
use ontogen::schema::model::{EntityDef, FieldDef, FieldRole, FieldType};
use ontogen::servers::config::Config;

fn entity(name: &str) -> EntityDef {
    EntityDef {
        name: name.to_string(),
        doc: String::new(),
        directory: name.to_ascii_lowercase(),
        table: name.to_ascii_lowercase(),
        type_tag: name.to_ascii_lowercase(),
        prefix: name.to_ascii_lowercase(),
        fields: vec![FieldDef::new("id", FieldType::String, FieldRole::Id)],
    }
}

#[test]
fn store_stage_defaults_the_api_store_type() {
    let stages = Pipeline::new("src/schema".to_string())
        .seaorm("src/entities".to_string(), "src/conversions".to_string())
        .api("src/api/v1/generated".to_string(), "AppState".to_string())
        .store("src/store/generated".to_string(), Some("src/store/hooks".to_string()))
        .stages()
        .unwrap();
    let api = stages.api.expect("api stage");
    assert_eq!(api.store_type.as_deref(), Some("Store"));
    assert_eq!(api.schema_module_path, "crate::schema");
    let store = stages.store.expect("store stage");
    assert_eq!(store.hooks_dir.as_deref(), Some("src/store/hooks"));
    assert_eq!(store.backend, StoreBackendChoice::Seaorm);
    assert!(stages.dtos.is_none());
}

#[test]
fn explicit_store_type_wins_and_none_without_a_store_stage() {
    let explicit = Pipeline::new("s".to_string())
        .markdown_io("m".to_string())
        .store("o".to_string(), None)
        .api("a".to_string(), "AppState".to_string())
        .api_store_type(Some("Db".to_string()))
        .stages()
        .unwrap();
    assert_eq!(explicit.api.unwrap().store_type.as_deref(), Some("Db"));
    let without = Pipeline::new("s".to_string()).api("a".to_string(), "AppState".to_string()).stages().unwrap();
    assert_eq!(without.api.unwrap().store_type, None);
}

#[test]
fn knobs_without_their_stage_change_nothing() {
    let p = Pipeline::new("s".to_string())
        .api_exclude(vec!["X".to_string()])
        .seaorm_skip_conversions(vec!["Y".to_string()])
        .servers_scan_dirs(vec!["d".to_string()]);
    assert!(p.api.is_none() && p.seaorm.is_none() && p.servers.is_none());
    let p = Pipeline::new("s".to_string())
        .schema_module_path("crate::model".to_string())
        .seaorm("e".to_string(), "c".to_string())
        .seaorm_skip_conversions(vec!["Y".to_string()]);
    assert_eq!(p.seaorm.as_ref().unwrap().skip_conversions, vec!["Y"]);
    let stages = p.store("o".to_string(), None).stages().unwrap();
    assert_eq!(stages.store.unwrap().schema_module_path, "crate::model");
}

#[test]
fn parsed_entities_are_forwarded_unless_the_servers_config_names_its_own() {
    let forwarded = servers_config_with_entities(Config::default(), vec![entity("Node")]);
    assert_eq!(forwarded.schema_entities.len(), 1);
    let mut own = Config::default();
    own.schema_entities = vec![entity("Own"), entity("Other")];
    let kept = servers_config_with_entities(own, vec![entity("Node")]);
    assert_eq!(kept.schema_entities.iter().map(|e| e.name.as_str()).collect::<Vec<_>>(), vec!["Own", "Other"]);
}

#[test]
fn builder_store_without_persistence_stage_errors() {
    let err = Pipeline::new("s".to_string())
        .store("store".to_string(), None)
        .stages()
        .expect_err("store without a persistence backend must be an error");
    assert!(err.contains("persistence backend"), "got: {err}");
}

#[test]
fn builder_with_both_persistence_stages_requires_explicit_backend() {
    let both = || {
        Pipeline::new("s".to_string())
            .seaorm("entities".to_string(), "conversions".to_string())
            .markdown_io("markdown".to_string())
            .store("store".to_string(), None)
    };
    let err = both().stages().expect_err("ambiguous backend must be an error");
    assert!(err.contains("store_backend"), "error should point at the disambiguator: {err}");

    let stages = both().store_backend(StoreBackendChoice::Seaorm).stages().expect("explicit seaorm choice");
    assert_eq!(stages.store.unwrap().backend, StoreBackendChoice::Seaorm);
}

#[test]
fn the_only_persistence_stage_is_the_store_backend() {
    assert_eq!(resolve_store_backend(false, true, None), Ok(StoreBackendChoice::Markdown));
    assert_eq!(resolve_store_backend(true, false, None), Ok(StoreBackendChoice::Seaorm));
    assert!(resolve_store_backend(true, false, Some(StoreBackendChoice::Markdown)).is_err());
    assert_eq!(resolve_store_backend(true, true, Some(StoreBackendChoice::Markdown)), Ok(StoreBackendChoice::Markdown));
    let without_store = Pipeline::new("s".to_string()).stages();
    assert!(without_store.is_ok());
}
