use ontogen::servers::parse::{GenericArg, PathArgs, PathSegment, TypeAst, TypePath};
use ontogen::servers::imports::collect_type_import;
use ontogen::servers::types::{
    capitalize, collect_ts_import, event_name, extract_input_type, inner_type, normalize_spaces, param_to_owned_type,
    rust_type_to_ts, snake_to_camel, strip_ref, to_pascal_case, NamingConfig,
};

fn seg(ident: &str, args: PathArgs) -> PathSegment {
    PathSegment { ident: ident.to_string(), args }
}

fn path(idents: &[&str]) -> TypeAst {
    TypeAst::Path(TypePath { qualified: false, segments: idents.iter().map(|i| seg(i, PathArgs::Bare)).collect() })
}

fn generic(head: &str, inner: TypeAst) -> TypeAst {
    TypeAst::Path(TypePath {
        qualified: false,
        segments: vec![seg(head, PathArgs::AngleBracketed(vec![GenericArg::Type(inner)]))],
    })
}

#[test]
fn test_normalize_spaces() {
    assert_eq!(normalize_spaces("Vec < String >"), "Vec<String>");
    assert_eq!(normalize_spaces("std :: string :: String"), "std::string::String");
    assert_eq!(normalize_spaces("& str"), "&str");
    assert_eq!(normalize_spaces("Option < & str >"), "Option<&str>");
}

#[test]
fn test_capitalize() {
    assert_eq!(capitalize("hello"), "Hello");
    assert_eq!(capitalize(""), "");
    assert_eq!(capitalize("a"), "A");
    assert_eq!(capitalize("Hello"), "Hello");
}

#[test]
fn test_strip_ref() {
    assert_eq!(strip_ref("&str"), "str");
    assert_eq!(strip_ref("& str"), "str");
    assert_eq!(strip_ref("String"), "String");
    assert_eq!(strip_ref("&CreateNodeInput"), "CreateNodeInput");
}

#[test]
fn test_extract_input_type() {
    assert_eq!(extract_input_type("&CreateNodeInput"), "CreateNodeInput");
    assert_eq!(extract_input_type("CreateNodeInput"), "CreateNodeInput");
    assert_eq!(extract_input_type("& UpdateRoleInput"), "UpdateRoleInput");
}

#[test]
fn test_inner_type() {
    assert_eq!(inner_type("Vec<Node>"), "Node");
    assert_eq!(inner_type("Node"), "Node");
    assert_eq!(inner_type("()"), "()");
    assert_eq!(inner_type("Vec<GraphSnapshot>"), "GraphSnapshot");
}

#[test]
fn test_collect_type_import() {
    let mut imports: Vec<String> = Vec::new();
    collect_type_import(&generic("Vec", path(&["Node"])), &mut imports);
    assert_eq!(imports, vec!["Node"]);

    collect_type_import(&TypeAst::unit(), &mut imports);
    assert_eq!(imports.len(), 1, "() should not add imports");

    collect_type_import(&path(&["relation", "Model"]), &mut imports);
    assert_eq!(imports.len(), 1, "entity-qualified types should not add imports");

    collect_type_import(&path(&["Node"]), &mut imports);
    assert_eq!(imports.len(), 1, "duplicates should not be added");

    collect_type_import(&path(&["Requirement"]), &mut imports);
    assert_eq!(imports, vec!["Node", "Requirement"]);
}

#[test]
fn test_event_name() {
    assert_eq!(event_name("graph_updated"), "graph-updated");
    assert_eq!(event_name("entity_changed"), "entity-changed");
    assert_eq!(event_name("simple"), "simple");
}

#[test]
fn test_to_pascal_case() {
    assert_eq!(to_pascal_case("graph_snapshot"), "GraphSnapshot");
    assert_eq!(to_pascal_case("node"), "Node");
    assert_eq!(to_pascal_case("work_execution"), "WorkExecution");
    assert_eq!(to_pascal_case("get_by_id"), "GetById");
}

#[test]
fn test_param_to_owned_type() {
    assert_eq!(param_to_owned_type("&str"), "String");
    assert_eq!(param_to_owned_type("& str"), "String");
    assert_eq!(param_to_owned_type("Option<&str>"), "Option<String>");
    assert_eq!(param_to_owned_type("String"), "String");
    assert_eq!(param_to_owned_type("i32"), "i32");
    assert_eq!(param_to_owned_type("CreateNodeInput"), "CreateNodeInput");
}

#[test]
fn test_snake_to_camel() {
    assert_eq!(snake_to_camel("get_nodes"), "getNodes");
    assert_eq!(snake_to_camel("create_node"), "createNode");
    assert_eq!(snake_to_camel("simple"), "simple");
    assert_eq!(snake_to_camel("get_by_id"), "getById");
    assert_eq!(snake_to_camel("project_id"), "projectId");
}

#[test]
fn test_rust_type_to_ts() {
    assert_eq!(rust_type_to_ts("()"), "null");
    assert_eq!(rust_type_to_ts("String"), "string");
    assert_eq!(rust_type_to_ts("&str"), "string");
    assert_eq!(rust_type_to_ts("i32"), "number");
    assert_eq!(rust_type_to_ts("u64"), "number");
    assert_eq!(rust_type_to_ts("f64"), "number");
    assert_eq!(rust_type_to_ts("bool"), "boolean");
    assert_eq!(rust_type_to_ts("Vec<Node>"), "Node[]");
    assert_eq!(rust_type_to_ts("Option<String>"), "string | null");
    assert_eq!(rust_type_to_ts("Option<i32>"), "number | null");
    assert_eq!(rust_type_to_ts("Node"), "Node");
    assert_eq!(rust_type_to_ts("relation::Model"), "RelationModel");
    assert_eq!(rust_type_to_ts("Vec<String>"), "string[]");
}

#[test]
fn test_collect_ts_import() {
    let mut imports: Vec<String> = Vec::new();
    collect_ts_import("Node", &mut imports);
    assert_eq!(imports, vec!["Node"]);

    collect_ts_import("string", &mut imports);
    assert_eq!(imports.len(), 1, "primitives should not add imports");

    collect_ts_import("null", &mut imports);
    assert_eq!(imports.len(), 1, "null should not add imports");

    collect_ts_import("number", &mut imports);
    assert_eq!(imports.len(), 1);

    collect_ts_import("boolean", &mut imports);
    assert_eq!(imports.len(), 1);

    collect_ts_import("Node[]", &mut imports);
    assert_eq!(imports.len(), 1, "Node[] should reuse existing Node import");

    collect_ts_import("Requirement | null", &mut imports);
    assert!(imports.contains(&"Requirement".to_string()));
    assert_eq!(imports.len(), 2);
}

#[test]
fn test_naming_config_defaults() {
    let naming = NamingConfig::default();
    assert_eq!(naming.module_plural("node"), "nodes");
    assert_eq!(naming.module_plural("requirement"), "requirements");
    assert_eq!(naming.url_singular("node"), "node");
    assert_eq!(naming.label("node"), "Node");
    assert_eq!(naming.plural_label("node"), "Nodes");
}

#[test]
fn test_naming_config_overrides() {
    let mut naming = NamingConfig::default();
    naming.plural_overrides.insert("evidence".to_string(), "evidence".to_string());
    naming.singular_overrides.insert("work_execution".to_string(), "work_execution".to_string());
    naming.label_overrides.insert("work_execution".to_string(), "Work Execution".to_string());
    naming.plural_label_overrides.insert("evidence".to_string(), "Evidence".to_string());

    assert_eq!(naming.module_plural("evidence"), "evidence");
    assert_eq!(naming.url_singular("work_execution"), "work_execution");
    assert_eq!(naming.label("work_execution"), "Work Execution");
    assert_eq!(naming.plural_label("evidence"), "Evidence");
}

#[test]
fn test_derive_action() {
    let naming = NamingConfig::default();

    // Standard CRUD names should map to empty (no action segment)
    assert_eq!(naming.derive_action("node", "node"), "");
    assert_eq!(naming.derive_action("node", "nodes"), "");

    // Custom functions: strip module prefix and get_ prefix
    assert_eq!(naming.derive_action("graph", "get_graph_snapshot"), "snapshot");
    assert_eq!(naming.derive_action("node", "get_node_members"), "members");

    // Underscores become hyphens
    assert_eq!(naming.derive_action("graph", "get_graph_full_snapshot"), "full-snapshot");
}

#[test]
fn cruet_inflection_backs_plural_and_singular_urls() {
    let naming = NamingConfig::default();
    // Irregular plurals come from the inflector, not from appending `s`.
    assert_eq!(naming.url_plural("dependency"), "dependencies");
    assert_eq!(naming.url_singular("dependencies"), "dependency");
    assert_eq!(naming.url_plural("work_session"), "work-sessions");
}

#[test]
fn ts_types_of_constructors_follow_their_argument() {
    for t in ["Node", "Vec<Node>", "Option<u64>", "&str", " Query "] {
        let inner = rust_type_to_ts(t);
        assert_eq!(rust_type_to_ts(&format!("Vec<{t}>")), format!("{inner}[]"));
        assert_eq!(rust_type_to_ts(&format!("Option<{t}>")), format!("{inner} | null"));
        assert_eq!(rust_type_to_ts(&format!("&{t}")), inner);
    }
}

#[test]
fn capitalizing_ascii_twice_is_capitalizing_once() {
    for s in ["hello", "Hello", "", "x", "9lives", "_a"] {
        let once = capitalize(s);
        assert_eq!(once.len(), s.len());
        assert_eq!(capitalize(&once), once);
    }
    assert_eq!(capitalize("node"), "Node");
}

#[test]
fn collecting_a_ts_import_again_changes_nothing() {
    let mut imports = vec!["Node".to_string()];
    collect_ts_import("Tag[] | null", &mut imports);
    assert_eq!(imports, vec!["Node", "Tag"]);
    collect_ts_import("Tag[] | null", &mut imports);
    assert_eq!(imports, vec!["Node", "Tag"]);
    collect_ts_import("string[]", &mut imports);
    assert_eq!(imports, vec!["Node", "Tag"]);
}
