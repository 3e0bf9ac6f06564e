use ontogen::ir::OpKind;
use ontogen::servers::classify::{classify_by_name_and_params, classify_op, is_read_op};
use ontogen::servers::parse::{ApiFn, ApiModule, EventFn, Param, PathArgs, PathSegment, TypeAst, TypePath};

fn seg(ident: &str, args: PathArgs) -> PathSegment {
    PathSegment { ident: ident.to_string(), args }
}

fn path(ident: &str) -> TypeAst {
    TypeAst::Path(TypePath { qualified: false, segments: vec![seg(ident, PathArgs::Bare)] })
}

/// A parameter whose type syntax matches the written type, for the shapes
/// these tests use: `&T`, `Option<&T>` and a bare `T`.
fn param(name: &str, ty: &str) -> Param {
    let ast = if let Some(inner) = ty.strip_prefix("Option<").and_then(|t| t.strip_suffix('>')) {
        let inner_ast = match inner.strip_prefix('&') {
            Some(t) => TypeAst::Reference(Box::new(path(t))),
            None => path(inner),
        };
        TypeAst::Path(TypePath {
            qualified: false,
            segments: vec![seg("Option", PathArgs::AngleBracketed(vec![ontogen::servers::parse::GenericArg::Type(inner_ast)]))],
        })
    } else if let Some(t) = ty.strip_prefix('&') {
        TypeAst::Reference(Box::new(path(t)))
    } else {
        path(ty)
    };
    let mut p = Param::default();
    p.name = name.to_string();
    p.ty = ty.to_string();
    p.ty_ast = ast;
    p
}

fn api_fn(name: &str, params: Vec<Param>, return_type: &str, store: bool) -> ApiFn {
    let mut f = ApiFn::default();
    f.name = name.to_string();
    f.is_async = true;
    f.params = params;
    f.return_type = return_type.to_string();
    f.first_param_is_store = store;
    f
}

fn capitalize(s: &str) -> String {
    ontogen::servers::types::capitalize(s)
}

fn make_crud_module(name: &str, is_store_based: bool) -> ApiModule {
    let cap = capitalize(name);
    ApiModule {
        name: name.to_string(),
        functions: vec![
            api_fn("list", vec![], &format!("Vec<{cap}>"), is_store_based),
            api_fn("get_by_id", vec![param("id", "&str")], &cap, is_store_based),
            api_fn("create", vec![param("input", &format!("Create{cap}Input"))], &cap, is_store_based),
            api_fn(
                "update",
                vec![param("id", "&str"), param("input", &format!("Update{cap}Input"))],
                &cap,
                is_store_based,
            ),
            api_fn("delete", vec![param("id", "&str")], "()", is_store_based),
        ],
        events: vec![],
        is_singleton: false,
    }
}

fn make_custom_module() -> ApiModule {
    ApiModule {
        name: "graph".to_string(),
        functions: vec![
            api_fn("get_graph_snapshot", vec![param("parent_id", "Option<&str>")], "GraphSnapshot", false),
            api_fn("get_node_detail", vec![param("node_id", "&str")], "NodeDetail", false),
        ],
        events: vec![],
        is_singleton: false,
    }
}

fn make_event_module() -> ApiModule {
    let mut a = EventFn::default();
    a.name = "graph_updated".to_string();
    let mut b = EventFn::default();
    b.name = "entity_changed".to_string();
    ApiModule { name: "events".to_string(), functions: vec![], events: vec![a, b], is_singleton: false }
}

#[test]
fn test_api_module_is_crud() {
    let crud = make_crud_module("node", true);
    assert!(crud.is_crud());

    let custom = make_custom_module();
    assert!(!custom.is_crud());

    let events = make_event_module();
    assert!(!events.is_crud());

    // Partial CRUD (missing delete) should return false
    let mut partial = make_crud_module("node", true);
    partial.functions.retain(|f| f.name != "delete");
    assert!(!partial.is_crud());
}

#[test]
fn test_classify_crud_operations() {
    let module = make_crud_module("node", true);

    for f in &module.functions {
        let op = classify_op(f);
        match f.name.as_str() {
            "list" => assert!(matches!(op, OpKind::List)),
            "get_by_id" => assert!(matches!(op, OpKind::GetById)),
            "create" => assert!(matches!(op, OpKind::Create)),
            "update" => assert!(matches!(op, OpKind::Update)),
            "delete" => assert!(matches!(op, OpKind::Delete)),
            _ => panic!("unexpected function name: {}", f.name),
        }
    }
}

#[test]
fn test_classify_custom_operations() {
    let custom = make_custom_module();

    let snapshot = &custom.functions[0]; // get_graph_snapshot
    assert!(matches!(classify_op(snapshot), OpKind::CustomGet));

    let detail = &custom.functions[1]; // get_node_detail
    assert!(matches!(classify_op(detail), OpKind::CustomGet));

    // A non-get function with params should be CustomPost
    let post_fn = api_fn("switch_project", vec![param("path", "&str")], "()", false);
    assert!(matches!(classify_op(&post_fn), OpKind::CustomPost));
}

#[test]
fn test_classify_no_params_is_get() {
    let no_param_fn = api_fn("detect_installed_openers", vec![], "Vec<String>", false);
    assert!(matches!(classify_op(&no_param_fn), OpKind::CustomGet));
}

#[test]
fn test_is_read_operation() {
    let read = |name: &str, params: Vec<Param>| is_read_op(&classify_by_name_and_params(name, &params));
    assert!(read("get_by_id", vec![param("id", "&str")]));
    assert!(read("get_graph_snapshot", vec![param("parent_id", "Option<&str>")]));
    assert!(read("list", vec![]));
    assert!(read("detect_installed_openers", vec![]));

    assert!(!read("create", vec![param("input", "CreateNodeInput")]));
    assert!(!read("update", vec![param("id", "&str"), param("input", "UpdateNodeInput")]));
    assert!(!read("delete", vec![param("id", "&str")]));
    assert!(!read("switch_project", vec![param("path", "&str")]));
}

#[test]
fn get_with_a_struct_param_is_a_post() {
    // A `get_` function whose first param is a body-shaped struct is routed
    // as a POST so the struct travels in the JSON body.
    let f = api_fn("get_report", vec![param("query", "ReportQuery")], "Report", false);
    assert!(matches!(classify_op(&f), OpKind::CustomPost));
}

#[test]
fn junction_functions_classify_with_their_child_segment() {
    let add = classify_by_name_and_params("add_role", &vec![param("id", "&str"), param("role_id", "&str")]);
    assert!(matches!(add, OpKind::JunctionAdd { ref child_segment } if child_segment == "roles"));
    let list = classify_by_name_and_params("list_skill_files", &vec![param("id", "&str")]);
    assert!(matches!(list, OpKind::JunctionList { ref child_segment } if child_segment == "skill-files"));
}

#[test]
fn forced_method_overrides_the_name() {
    let mut f = api_fn("create", vec![param("input", "CreateNodeInput")], "Node", false);
    f.force_method = Some(ontogen::servers::parse::ForcedMethod::Get);
    assert!(matches!(classify_op(&f), OpKind::CustomGet));
}
