use ontogen::clients::config::ClientGenerator;
use ontogen::clients::ts_bindings::emit;
use ontogen::servers::config::{ApiSurface, Config, GeneratorConfig, PrefixParam, RoutePrefix, ServerGenerator};
use ontogen::servers::generator_bindings;
use ontogen::servers::generate;
use ontogen::servers::merge::ScanResult;
use ontogen::servers::parse::{ApiFn, ApiModule, EventFn, Param, PathArgs, PathSegment, TypeAst, TypePath};
use ontogen::servers::parse::GenericArg;
use ontogen::servers::qualify::{fn_type_imports, shared_type_qualifications};
use ontogen::servers::rewrite::{qualify_shared_types, qualify_type, types_path_pieces};

fn path(ident: &str) -> TypeAst {
    TypeAst::Path(TypePath {
        qualified: false,
        segments: vec![PathSegment { ident: ident.to_string(), args: PathArgs::Bare }],
    })
}

fn param(name: &str, ty: &str, ast: TypeAst) -> Param {
    let mut p = Param::default();
    p.name = name.to_string();
    p.ty = ty.to_string();
    p.ty_ast = ast;
    p
}

fn api_fn(name: &str, params: Vec<Param>, return_type: &str, store: bool) -> ApiFn {
    let mut f = ApiFn::default();
    f.name = name.to_string();
    f.is_async = true;
    f.doc = format!("Doc of {name}.");
    f.params = params;
    f.return_type = return_type.to_string();
    f.return_type_ast = path(return_type);
    f.first_param_is_store = store;
    f
}

fn id_param() -> Param {
    param("id", "&str", TypeAst::Reference(Box::new(path("str"))))
}

fn node_module(store: bool) -> ApiModule {
    ApiModule {
        name: "node".to_string(),
        functions: vec![
            api_fn("list", vec![], "Node", store),
            api_fn("get_by_id", vec![id_param()], "Node", store),
            api_fn("get_node_members", vec![id_param()], "Members", store),
        ],
        events: vec![],
        is_singleton: false,
    }
}

fn events_module() -> ApiModule {
    let mut ev = EventFn::default();
    ev.name = "graph_updated".to_string();
    ApiModule { name: "events".to_string(), functions: vec![], events: vec![ev], is_singleton: false }
}

fn prefixed(config: &mut Config) {
    config.route_prefix = Some(RoutePrefix {
        segments: "projects/:project_id".to_string(),
        state_accessor: "store_for".to_string(),
        params: vec![PrefixParam {
            name: "project_id".to_string(),
            rust_type: "uuid::Uuid".to_string(),
            ts_type: "string".to_string(),
        }],
    });
}

#[test]
fn server_run_fails_without_the_api_dir() {
    let err = generate(false, ScanResult { modules: vec![], skips: vec![] }, &Config::default()).unwrap_err();
    assert_eq!(err, "API directory does not exist: src/api/v1");
}

fn generators_with_clients() -> Vec<GeneratorConfig> {
    vec![
        GeneratorConfig::Server(ServerGenerator::HttpAxum { output: "http.rs".to_string() }),
        GeneratorConfig::Client(ClientGenerator::HttpTauriIpcSplit {
            output: "transport.ts".to_string(),
            bindings_path: "bindings.ts".to_string(),
        }),
        GeneratorConfig::Client(ClientGenerator::AdminRegistry { output: "admin.ts".to_string() }),
        GeneratorConfig::Client(ClientGenerator::HttpTs {
            output: "http.ts".to_string(),
            bindings_path: "bindings.ts".to_string(),
        }),
        GeneratorConfig::Client(ClientGenerator::HttpTs {
            output: "other.ts".to_string(),
            bindings_path: "other/bindings.ts".to_string(),
        }),
        GeneratorConfig::Server(ServerGenerator::Mcp { output: "mcp.rs".to_string() }),
    ]
}

#[test]
fn client_generator_bindings_files_are_distinct_in_order() {
    assert_eq!(generator_bindings(&generators_with_clients()), vec!["bindings.ts", "other/bindings.ts"]);
    let servers_only = vec![GeneratorConfig::Server(ServerGenerator::TauriIpc { output: "ipc.rs".to_string() })];
    assert!(generator_bindings(&servers_only).is_empty());
}

#[test]
fn server_run_writes_schema_known_bindings_for_client_generators() {
    let mut config = Config::default();
    config.generators = generators_with_clients();
    let run = generate(true, ScanResult { modules: vec![node_module(false)], skips: vec![] }, &config).unwrap();
    assert_eq!(run.bindings, vec!["bindings.ts", "other/bindings.ts"]);
    assert_eq!(run.schema_ts, emit(&config.schema_entities));
    assert!(run.schema_ts.starts_with("// Auto-generated by ontogen. DO NOT EDIT.\n"));
}

#[test]
fn server_run_without_modules_writes_no_bindings() {
    let mut config = Config::default();
    config.generators = generators_with_clients();
    let run = generate(true, ScanResult { modules: vec![], skips: vec![] }, &config).unwrap();
    assert!(run.modules.is_empty());
    assert!(run.bindings.is_empty());
    assert!(run.schema_ts.is_empty());
}

#[test]
fn server_run_describes_routes_commands_and_tools() {
    let run = generate(true, ScanResult { modules: vec![node_module(false)], skips: vec![] }, &Config::default())
        .unwrap();
    let routes: Vec<(String, String, String)> = run
        .output
        .http_routes
        .iter()
        .map(|r| (r.method.clone(), r.path.clone(), r.handler_name.clone()))
        .collect();
    assert_eq!(
        routes,
        vec![
            ("GET".to_string(), "/api/nodes".to_string(), "node_list".to_string()),
            ("GET".to_string(), "/api/nodes/:id".to_string(), "node_get_by_id".to_string()),
            ("GET".to_string(), "/api/nodes/members/:id".to_string(), "node_get_node_members".to_string()),
        ]
    );
    assert_eq!(run.output.ipc_commands.len(), 3);
    assert_eq!(run.output.ipc_commands[1].params[0].param_type, "&str");
    assert_eq!(run.output.mcp_tools[2].tool_name, "node_get_node_members");
    assert_eq!(run.output.mcp_tools[2].description, "Doc of get_node_members.");
}

#[test]
fn store_modules_and_events_are_scoped_under_the_route_prefix() {
    let mut config = Config::default();
    prefixed(&mut config);
    let run = generate(true, ScanResult { modules: vec![node_module(true), events_module()], skips: vec![] }, &config)
        .unwrap();
    let paths: Vec<&str> = run.output.http_routes.iter().map(|r| r.path.as_str()).collect();
    assert_eq!(
        paths,
        vec![
            "/api/projects/:project_id/nodes",
            "/api/projects/:project_id/nodes/:id",
            "/api/projects/:project_id/nodes/members/:id",
            "/api/events/graph-updated",
            "/api/projects/:project_id/events/graph-updated",
        ]
    );
    assert_eq!(run.output.http_routes[4].handler_name, "graph_updated_sse_scoped");
}

#[test]
fn sse_overrides_replace_the_event_path() {
    let mut config = Config::default();
    prefixed(&mut config);
    config.sse_route_overrides.insert("graph_updated".to_string(), "/api/stream/graph".to_string());
    let run = generate(true, ScanResult { modules: vec![events_module()], skips: vec![] }, &config).unwrap();
    let paths: Vec<&str> = run.output.http_routes.iter().map(|r| r.path.as_str()).collect();
    assert_eq!(paths, vec!["/api/stream/graph", "/api/projects/:project_id/stream/graph"]);
}

#[test]
fn shared_type_names_are_qualified_outside_their_owning_surface() {
    let surface = |types: &str| ApiSurface {
        api_dir: String::new(),
        service_import_path: String::new(),
        types_import_path: types.to_string(),
        store_accessor: None,
        store_type: None,
        pagination: None,
        paginated_modules: vec![],
        schema_dir: None,
    };
    let surfaces = vec![surface("crate::schema"), surface("crate::billing::types")];
    let mut a = api_fn("get_by_id", vec![id_param()], "Invoice", false);
    a.surface = 1;
    let b = api_fn("list", vec![param("q", "Query", path("Query"))], "Invoice", false);
    let module = ApiModule { name: "invoice".to_string(), functions: vec![a, b], events: vec![], is_singleton: false };
    assert_eq!(fn_type_imports(&module.functions[1]), vec!["Invoice", "Query"]);
    let q = shared_type_qualifications(&vec![module], &surfaces);
    // `Invoice` is owned by surface 0, so the surface-1 function qualifies it.
    assert_eq!(q, vec![vec![vec!["Invoice".to_string()], vec![]]]);
}

fn segment_idents(ty: &TypeAst) -> Vec<String> {
    match ty {
        TypeAst::Path(tp) => tp.segments.iter().map(|s| s.ident.clone()).collect(),
        _ => panic!("not a path"),
    }
}

fn only_type_arg(ty: &TypeAst) -> &TypeAst {
    match ty {
        TypeAst::Path(tp) => match &tp.segments.last().unwrap().args {
            PathArgs::AngleBracketed(args) => match &args[0] {
                GenericArg::Type(t) => t,
                GenericArg::Other => panic!("not a type argument"),
            },
            _ => panic!("no arguments"),
        },
        _ => panic!("not a path"),
    }
}

#[test]
fn types_paths_split_into_trimmed_segments() {
    assert_eq!(types_path_pieces("crate::billing::types"), vec!["crate", "billing", "types"]);
    assert_eq!(types_path_pieces("crate :: schema"), vec!["crate", "schema"]);
}

#[test]
fn qualifying_a_type_rewrites_bare_paths_inside_generics_and_references() {
    let prefix = vec!["crate".to_string(), "billing".to_string()];
    let vec_of = |inner: TypeAst| {
        TypeAst::Path(TypePath {
            qualified: false,
            segments: vec![PathSegment {
                ident: "Vec".to_string(),
                args: PathArgs::AngleBracketed(vec![GenericArg::Type(inner)]),
            }],
        })
    };
    let mut ty = TypeAst::Reference(Box::new(vec_of(path("Invoice"))));
    qualify_type(&mut ty, "Invoice", &prefix);
    match &ty {
        TypeAst::Reference(inner) => {
            assert_eq!(segment_idents(inner), vec!["Vec"]);
            assert_eq!(segment_idents(only_type_arg(inner)), vec!["crate", "billing", "Invoice"]);
        }
        _ => panic!("reference expected"),
    }
    // Other names and already qualified paths stay as they are.
    let mut other = path("Query");
    qualify_type(&mut other, "Invoice", &prefix);
    assert_eq!(segment_idents(&other), vec!["Query"]);
    let mut long = TypeAst::Path(TypePath {
        qualified: false,
        segments: vec![
            PathSegment { ident: "a".to_string(), args: PathArgs::Bare },
            PathSegment { ident: "Invoice".to_string(), args: PathArgs::Bare },
        ],
    });
    qualify_type(&mut long, "Invoice", &prefix);
    assert_eq!(segment_idents(&long), vec!["a", "Invoice"]);
}

#[test]
fn shared_types_are_rewritten_outside_their_owning_surface() {
    let surface = |types: &str| ApiSurface {
        api_dir: String::new(),
        service_import_path: String::new(),
        types_import_path: types.to_string(),
        store_accessor: None,
        store_type: None,
        pagination: None,
        paginated_modules: vec![],
        schema_dir: None,
    };
    let surfaces = vec![surface("crate::schema"), surface("crate::billing::types")];
    let mut a = api_fn("get_by_id", vec![param("item", "Invoice", path("Invoice"))], "Invoice", false);
    a.surface = 1;
    let b = api_fn("list", vec![param("q", "Query", path("Query"))], "Invoice", false);
    let mut modules =
        vec![ApiModule { name: "invoice".to_string(), functions: vec![a, b], events: vec![], is_singleton: false }];
    qualify_shared_types(&mut modules, &surfaces);
    let f = &modules[0].functions;
    assert_eq!(segment_idents(&f[0].return_type_ast), vec!["crate", "billing", "types", "Invoice"]);
    assert_eq!(segment_idents(&f[0].params[0].ty_ast), vec!["crate", "billing", "types", "Invoice"]);
    assert_eq!(f[0].params[0].name, "item");
    // The owning surface keeps the bare name.
    assert_eq!(segment_idents(&f[1].return_type_ast), vec!["Invoice"]);
    assert_eq!(segment_idents(&f[1].params[0].ty_ast), vec!["Query"]);
}
