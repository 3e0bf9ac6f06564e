use ontogen::api::{collect_generated_module_meta, generate_mod_rs, generated_modules, merge_scanned_module};
use ontogen::ir::{OpKind, StateKind};
use ontogen::schema::model::{EntityDef, FieldDef, FieldRole, FieldType};
use ontogen::servers::parse::{ApiFn, ApiModule, Param};

fn entity(name: &str) -> EntityDef {
    EntityDef {
        name: name.to_string(),
        doc: String::new(),
        directory: name.to_ascii_lowercase(),
        table: name.to_ascii_lowercase(),
        type_tag: name.to_ascii_lowercase(),
        prefix: name.to_ascii_lowercase(),
        fields: vec![FieldDef::new("id", FieldType::String, FieldRole::Id)],
    }
}

fn api_fn(name: &str, params: Vec<(&str, &str)>, ret: &str, store: bool) -> ApiFn {
    let mut f = ApiFn::default();
    f.name = name.to_string();
    f.params = params
        .into_iter()
        .map(|(n, t)| {
            let mut p = Param::default();
            p.name = n.to_string();
            p.ty = t.to_string();
            p
        })
        .collect();
    f.return_type = ret.to_string();
    f.first_param_is_store = store;
    f
}

#[test]
fn exclude_skips_entities() {
    let entities = vec![entity("Agent"), entity("Contract"), entity("WorkSession"), entity("Evidence")];
    let exclude = vec!["Contract".to_string(), "Evidence".to_string()];
    let (modules, names) = generated_modules(&entities, &exclude);
    assert!(!modules.iter().any(|m| m.name == "contract"));
    assert!(!modules.iter().any(|m| m.name == "evidence"));
    assert_eq!(modules.len(), entities.len() - 2);
    assert_eq!(names, vec!["agent", "work_session"]);
}

#[test]
fn op_kinds_are_correct() {
    let module = collect_generated_module_meta(&entity("Role"));
    assert_eq!(module.name, "role");
    assert_eq!(module.state_type, StateKind::Store);
    let find_fn = |name: &str| module.fns.iter().find(|f| f.name == name).unwrap();
    assert_eq!(find_fn("list").classified_op, OpKind::List);
    assert_eq!(find_fn("get_by_id").classified_op, OpKind::GetById);
    assert_eq!(find_fn("create").classified_op, OpKind::Create);
    assert_eq!(find_fn("update").classified_op, OpKind::Update);
    assert_eq!(find_fn("delete").classified_op, OpKind::Delete);
}

#[test]
fn merge_does_not_duplicate_crud() {
    let mut modules = vec![collect_generated_module_meta(&entity("Agent"))];
    let scanned = ApiModule {
        name: "agent".to_string(),
        functions: vec![
            api_fn("list", vec![], "Vec<Agent>", true),
            api_fn("get_by_id", vec![("id", "&str")], "Agent", true),
            api_fn("create", vec![("input", "CreateAgentInput")], "Agent", true),
            api_fn("update", vec![("id", "&str"), ("input", "UpdateAgentInput")], "Agent", true),
            api_fn("delete", vec![("id", "&str")], "()", true),
        ],
        events: vec![],
        is_singleton: false,
    };
    merge_scanned_module(&mut modules, &scanned, "src/api/v1");
    assert_eq!(modules.len(), 1);
    assert_eq!(modules[0].fns.len(), 5, "Agent should have exactly 5 functions after merge");
}

#[test]
fn project_module_scanned_standalone() {
    let mut modules = Vec::new();
    let scanned = ApiModule {
        name: "project".to_string(),
        functions: vec![
            api_fn("switch_project", vec![("path", "&str")], "()", false),
            api_fn("open_project", vec![("path", "&str")], "()", false),
            api_fn("import_project", vec![("input", "ImportProjectInput")], "()", false),
        ],
        events: vec![],
        is_singleton: false,
    };
    merge_scanned_module(&mut modules, &scanned, "src/api/v1");
    let project = modules.iter().find(|m| m.name == "project").expect("project module");
    assert_eq!(project.state_type, StateKind::AppState);
    let fn_names: Vec<&str> = project.fns.iter().map(|f| f.name.as_str()).collect();
    assert_eq!(fn_names, vec!["switch_project", "open_project", "import_project"]);
    // Only string-like or optional params: a read; an input struct: a write.
    assert_eq!(project.fns[0].classified_op, OpKind::CustomGet);
    assert_eq!(project.fns[2].classified_op, OpKind::CustomPost);
}

#[test]
fn mod_rs_lists_each_module() {
    let code = generate_mod_rs(&vec!["agent".to_string(), "work_session".to_string()]);
    assert!(code.contains("pub mod agent;\n"));
    assert!(code.contains("pub mod work_session;\n"));
}
