use ontogen::servers::config::{ApiSurface, Config};
use ontogen::servers::parse::{ApiFn, ApiModule, EventFn, Param, PathArgs, PathSegment, TypeAst, TypePath};
use ontogen::servers::use_stmts::surface_use_stmts;

fn path(ident: &str) -> TypeAst {
    TypeAst::Path(TypePath {
        qualified: false,
        segments: vec![PathSegment { ident: ident.to_string(), args: PathArgs::Bare }],
    })
}

fn api_fn(name: &str, ret: &str, param_ty: Option<&str>, surface: usize) -> ApiFn {
    let mut f = ApiFn::default();
    f.name = name.to_string();
    f.return_type = ret.to_string();
    f.return_type_ast = path(ret);
    if let Some(t) = param_ty {
        let mut p = Param::default();
        p.name = "input".to_string();
        p.ty = t.to_string();
        p.ty_ast = path(t);
        f.params = vec![p];
    }
    f.surface = surface;
    f
}

fn second_surface(service: &str, types: &str) -> ApiSurface {
    ApiSurface {
        api_dir: "src/admin/api".to_string(),
        service_import_path: service.to_string(),
        types_import_path: types.to_string(),
        store_accessor: None,
        store_type: None,
        pagination: None,
        paginated_modules: vec![],
        schema_dir: None,
    }
}

#[test]
fn use_blocks_group_by_path_and_rename_secondary_surfaces() {
    let mut config = Config::default();
    config.extra_surfaces = vec![second_surface("crate::admin::api", "crate::types")];
    let mut ev = EventFn::default();
    ev.name = "changed".to_string();
    let node = ApiModule {
        name: "node".to_string(),
        functions: vec![api_fn("list", "Node", None, 0), api_fn("purge", "Report", Some("PurgeInput"), 1)],
        events: vec![ev],
        is_singleton: false,
    };
    let graph = ApiModule {
        name: "graph".to_string(),
        functions: vec![api_fn("get_graph_snapshot", "Snapshot", None, 0)],
        events: vec![],
        is_singleton: false,
    };
    let blocks = surface_use_stmts(&vec![node, graph], &config);
    assert_eq!(
        blocks,
        vec![
            "use crate::admin::api::{\n    node as node_1,\n};\n".to_string(),
            "use crate::api::v1::{\n    graph,\n    node,\n};\n".to_string(),
            "use crate::types::{\n    Node,\n    PurgeInput,\n    Report,\n    Snapshot,\n};\n".to_string(),
        ]
    );
}

#[test]
fn types_paths_with_nothing_to_import_get_no_block() {
    let config = Config::default();
    let m = ApiModule {
        name: "health".to_string(),
        functions: vec![api_fn("ping", "String", None, 0)],
        events: vec![],
        is_singleton: false,
    };
    assert_eq!(surface_use_stmts(&vec![m], &config), vec!["use crate::api::v1::{\n    health,\n};\n".to_string()]);
}
