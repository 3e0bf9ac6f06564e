use ontogen::attrs::{AttrInfo, AttrMeta};
use ontogen::servers::parse::{is_scannable_rs_file, GenericArg, PathArgs, PathSegment, TypeAst, TypePath};
use ontogen::servers::scan::{parse_api_source, FnInput, FnItem, SkipReason};

fn seg(ident: &str, args: PathArgs) -> PathSegment {
    PathSegment { ident: ident.to_string(), args }
}

fn path(ident: &str) -> TypeAst {
    TypeAst::Path(TypePath { qualified: false, segments: vec![seg(ident, PathArgs::Bare)] })
}

fn generic(head: &str, args: Vec<TypeAst>) -> TypeAst {
    TypeAst::Path(TypePath {
        qualified: false,
        segments: vec![seg(head, PathArgs::AngleBracketed(args.into_iter().map(GenericArg::Type).collect()))],
    })
}

fn reference(t: TypeAst) -> TypeAst {
    TypeAst::Reference(Box::new(t))
}

fn doc(text: &str) -> AttrInfo {
    AttrInfo { path: vec!["doc".to_string()], meta: AttrMeta::NameValue(Some(text.to_string())) }
}

fn typed(name: &str, tokens: &str, ty: TypeAst) -> FnInput {
    FnInput::Typed { name: name.to_string(), tokens: tokens.to_string(), ty }
}

/// `pub async fn {name}({inputs}) -> Result<{ok}, anyhow::Error>`.
fn result_fn(name: &str, docs: &[&str], inputs: Vec<FnInput>, ok: TypeAst, ok_tokens: &str) -> FnItem {
    FnItem {
        name: name.to_string(),
        is_pub: true,
        is_async: true,
        attrs: docs.iter().map(|d| doc(d)).collect(),
        inputs,
        output: Some(generic("Result", vec![ok, path("Error")])),
        ret_arg_tokens: vec![ok_tokens.to_string(), "AppError".to_string()],
    }
}

fn store() -> FnInput {
    typed("store", "& Store", reference(path("Store")))
}

fn state() -> FnInput {
    typed("state", "& AppState", reference(path("AppState")))
}

fn id() -> FnInput {
    typed("id", "& str", reference(path("str")))
}

#[test]
fn test_parse_store_based_module() {
    let items = vec![
        result_fn("list", &[" List all agents."], vec![store()], generic("Vec", vec![path("Agent")]), "Vec < Agent >"),
        result_fn("get_by_id", &[" Get an agent by ID."], vec![store(), id()], path("Agent"), "Agent"),
        result_fn(
            "create",
            &[" Create a new agent."],
            vec![store(), typed("input", "CreateAgentInput", path("CreateAgentInput"))],
            path("Agent"),
            "Agent",
        ),
        result_fn(
            "update",
            &[" Update an agent."],
            vec![store(), id(), typed("input", "UpdateAgentInput", path("UpdateAgentInput"))],
            path("Agent"),
            "Agent",
        ),
        result_fn("delete", &[" Delete an agent."], vec![store(), id()], TypeAst::unit(), "()"),
    ];
    let r = parse_api_source("api/agent.rs", "agent", "use crate::store::Store;\n", Some(items), "AppState", Some("Store"));
    let m = r.module.expect("module");
    assert_eq!(m.name, "agent");
    assert_eq!(m.functions.len(), 5);
    assert!(m.functions.iter().all(|f| f.first_param_is_store));
    assert!(m.functions.iter().all(|f| f.is_async));

    let list_fn = m.functions.iter().find(|f| f.name == "list").unwrap();
    assert_eq!(list_fn.return_type, "Vec<Agent>");
    assert!(list_fn.params.is_empty());

    let create_fn = m.functions.iter().find(|f| f.name == "create").unwrap();
    assert_eq!(create_fn.params.len(), 1);
    assert_eq!(create_fn.params[0].name, "input");
    assert!(create_fn.params[0].ty.contains("CreateAgentInput"));
}

#[test]
fn test_parse_state_based_module() {
    let items = vec![
        result_fn("list", &[], vec![state()], generic("Vec", vec![path("Project")]), "Vec < Project >"),
        result_fn(
            "create",
            &[],
            vec![state(), typed("input", "CreateProjectInput", path("CreateProjectInput"))],
            path("Project"),
            "Project",
        ),
    ];
    let r = parse_api_source("api/project.rs", "project", "", Some(items), "AppState", Some("Store"));
    let m = r.module.expect("module");
    assert_eq!(m.name, "project");
    assert_eq!(m.functions.len(), 2);
    assert!(m.functions.iter().all(|f| !f.first_param_is_store));
}

#[test]
fn test_parse_event_functions() {
    let receiver = |name: &str| FnItem {
        name: name.to_string(),
        is_pub: true,
        is_async: false,
        attrs: vec![],
        inputs: vec![state()],
        output: Some(TypeAst::Path(TypePath {
            qualified: false,
            segments: vec![
                seg("broadcast", PathArgs::Bare),
                seg("Receiver", PathArgs::AngleBracketed(vec![GenericArg::Type(path("String"))])),
            ],
        })),
        ret_arg_tokens: vec!["String".to_string()],
    };
    let r = parse_api_source(
        "api/events.rs",
        "events",
        "",
        Some(vec![receiver("graph_updated"), receiver("entity_changed")]),
        "AppState",
        Some("Store"),
    );
    let m = r.module.expect("module");
    assert_eq!(m.name, "events");
    assert!(m.functions.is_empty(), "event functions should not appear as regular functions");
    assert_eq!(m.events.len(), 2);
    assert_eq!(m.events[0].name, "graph_updated");
    assert_eq!(m.events[1].name, "entity_changed");
}

#[test]
fn test_parse_skips_mod_rs_and_impl_files() {
    assert!(!is_scannable_rs_file("mod.rs"));
    assert!(!is_scannable_rs_file("node_impl.rs"));
    assert!(is_scannable_rs_file("node.rs"));
    let r = parse_api_source("api/mod.rs", "mod", "pub mod node;\n", Some(vec![]), "AppState", Some("Store"));
    assert!(r.module.is_none());
}

#[test]
fn test_parse_doc_comments() {
    let items = vec![result_fn(
        "list",
        &[" List all roles in the system."],
        vec![store()],
        generic("Vec", vec![path("String")]),
        "Vec < String >",
    )];
    let r = parse_api_source("api/role.rs", "role", "", Some(items), "AppState", Some("Store"));
    let f = &r.module.unwrap().functions[0];
    assert_eq!(f.doc, "List all roles in the system.");
}

#[test]
fn functions_with_a_foreign_first_param_are_skipped_with_a_record() {
    let items = vec![
        result_fn("list", &[], vec![typed("db", "& Database", reference(path("Database")))], path("String"), "String"),
        result_fn("ping", &[], vec![], path("String"), "String"),
    ];
    let r = parse_api_source("api/misc.rs", "misc", "", Some(items), "AppState", Some("Store"));
    assert_eq!(r.skips.len(), 2);
    assert!(matches!(r.skips[0].reason, SkipReason::FirstParamMismatch { .. }));
    assert!(matches!(r.skips[1].reason, SkipReason::NoParams));
    assert_eq!(r.skips[1].fn_name, "ping");
}

#[test]
fn skip_marker_and_singleton_marker_are_read_from_the_header() {
    let items = vec![result_fn("list", &[], vec![state()], path("String"), "String")];
    let skipped = parse_api_source("api/x.rs", "x", "// ontogen:skip\nuse a;\n", Some(items), "AppState", None);
    assert!(skipped.module.is_none());
    let items = vec![result_fn("get", &[], vec![state()], path("String"), "String")];
    let single = parse_api_source("api/settings.rs", "settings", "// ontogen:singleton\n", Some(items), "AppState", None);
    assert!(single.module.unwrap().is_singleton);
}
