//! The transport surface derived from the parsed modules: command names,
//! HTTP routes, IPC commands and MCP tools.

use vstd::prelude::*;

use crate::ir::{HttpRouteMeta, IpcCommandMeta, McpToolMeta, OpKind, OpKindView, ParamMeta, ServersOutput};
use crate::servers::classify::{classify_fn_spec, classify_op, is_read_op, is_read_spec};
use crate::servers::config::{Config, RoutePrefix};
use crate::servers::parse::{ApiFn, ApiModule, EventFn, Param};
use crate::servers::types::{derive_action_spec, event_name, NamingConfig, Overrides};
use crate::text::{
    contains, owned, replace_char, replace_char_exec, starts_with, str_contains, str_starts_with, chars_of,
    string_of_range,
};

verus! {

// ─── Names ──────────────────────────────────────────────────────────────────

/// The IPC / TS command name of a function: its override, else
/// `{singular}_{fn}`.
pub open spec fn command_spec(naming: NamingConfig, module: Seq<char>, f: ApiFn) -> Seq<char> {
    match f.command_override {
        Some(c) => c@,
        None => naming.singular_spec(module) + "_"@ + f.name@,
    }
}

/// Derive the IPC/TS command name for a function: entity-first naming with
/// the singular entity prefix (`{entity}_{fn}`), unless the source or the
/// config renamed the function.
pub fn command_name(module: &str, f: &ApiFn, naming: &NamingConfig) -> (r: String)
    ensures
        r@ == command_spec(*naming, module@, *f),
{
    match &f.command_override {
        Some(c) => c.clone(),
        None => {
            let mut r = naming.url_singular(module);
            r.append("_");
            r.append(f.name.as_str());
            r
        },
    }
}

/// The URL segment of a module: a singleton keeps its own name, any other
/// module takes its plural; `_` becomes `-`.
pub open spec fn url_for_module_spec(naming: NamingConfig, m: ApiModule) -> Seq<char> {
    if m.is_singleton {
        replace_char(m.name@, '_', '-')
    } else {
        replace_char(naming.plural_spec(m.name@), '_', '-')
    }
}

impl NamingConfig {
    /// The URL segment of a module: its own name for a singleton, its
    /// plural otherwise, kebab-cased.
    pub fn url_for_module(&self, m: &ApiModule) -> (r: String)
        ensures
            r@ == url_for_module_spec(*self, *m),
    {
        if m.is_singleton {
            replace_char_exec(m.name.as_str(), '_', '-')
        } else {
            self.url_plural(m.name.as_str())
        }
    }
}

// ─── HTTP routes ────────────────────────────────────────────────────────────

/// The path parameters of a custom `GET`: `/:{name}` for each parameter
/// that is neither an `Option<..>` nor an input struct.
pub open spec fn path_params(ps: Seq<Param>) -> Seq<char>
    decreases ps.len(),
{
    if ps.len() == 0 {
        Seq::empty()
    } else {
        let p = ps.last();
        path_params(ps.drop_last()) + if !starts_with(p.ty@, "Option<"@) && !contains(p.ty@, "Input"@) {
            "/:"@ + p.name@
        } else {
            Seq::empty()
        }
    }
}

/// The HTTP method and path of a classified function; none for an event
/// stream.
pub open spec fn route_spec(
    op: OpKindView,
    base: Seq<char>,
    plural: Seq<char>,
    module: Seq<char>,
    f: ApiFn,
    naming: NamingConfig,
) -> Option<(Seq<char>, Seq<char>)> {
    let coll = base + "/"@ + plural;
    match op {
        OpKindView::List => Some(("GET"@, coll)),
        OpKindView::Create => Some(("POST"@, coll)),
        OpKindView::GetById => Some(("GET"@, coll + "/:id"@)),
        OpKindView::Update => Some(("PUT"@, coll + "/:id"@)),
        OpKindView::Delete => Some(("DELETE"@, coll + "/:id"@)),
        OpKindView::JunctionList(c) => Some(("GET"@, coll + "/:parent_id/"@ + c)),
        OpKindView::JunctionAdd(c) => Some(("POST"@, coll + "/:parent_id/"@ + c)),
        OpKindView::JunctionRemove(c) => Some(("DELETE"@, coll + "/:parent_id/"@ + c + "/:child_id"@)),
        OpKindView::EventStream => None,
        _ => {
            let is_get = is_read_spec(op);
            let action = derive_action_spec(module, naming.plural_spec(module), f.name@);
            let with_action = if action.len() > 0 {
                coll + "/"@ + action
            } else {
                coll
            };
            if is_get {
                Some(("GET"@, with_action + path_params(f.params@)))
            } else {
                Some(("POST"@, with_action))
            }
        },
    }
}

/// The CRUD routes of a module share one collection path: `list` (GET)
/// and `create` (POST) are served on it, and `get`, `update` and `delete`
/// (GET, PUT, DELETE) on one member path, the collection path followed by
/// `/:id`, so every route that takes an id ends with `/:id` and none of
/// them collides with the collection.
pub proof fn law_crud_routes_share_paths(
    base: Seq<char>,
    plural: Seq<char>,
    module: Seq<char>,
    f: ApiFn,
    naming: NamingConfig,
)
    ensures
        route_spec(OpKindView::List, base, plural, module, f, naming) is Some,
        route_spec(OpKindView::List, base, plural, module, f, naming)->Some_0.0 == "GET"@,
        route_spec(OpKindView::Create, base, plural, module, f, naming) == Some(
            ("POST"@, route_spec(OpKindView::List, base, plural, module, f, naming)->Some_0.1),
        ),
        route_spec(OpKindView::GetById, base, plural, module, f, naming) == Some(
            ("GET"@, route_spec(OpKindView::List, base, plural, module, f, naming)->Some_0.1 + "/:id"@),
        ),
        route_spec(OpKindView::Update, base, plural, module, f, naming) == Some(
            ("PUT"@, route_spec(OpKindView::GetById, base, plural, module, f, naming)->Some_0.1),
        ),
        route_spec(OpKindView::Delete, base, plural, module, f, naming) == Some(
            ("DELETE"@, route_spec(OpKindView::GetById, base, plural, module, f, naming)->Some_0.1),
        ),
        crate::text::ends_with(route_spec(OpKindView::Delete, base, plural, module, f, naming)->Some_0.1, "/:id"@),
        route_spec(OpKindView::Delete, base, plural, module, f, naming)->Some_0.1 != route_spec(
            OpKindView::List,
            base,
            plural,
            module,
            f,
            naming,
        )->Some_0.1,
{
    let coll = base + "/"@ + plural;
    let d = coll + "/:id"@;
    reveal_strlit("/:id");
    assert(d.subrange(d.len() - 4, d.len() as int) =~= "/:id"@);
    assert(d.len() != coll.len());
}

fn path_params_exec(ps: &Vec<Param>, path: &mut String)
    ensures
        final(path)@ == old(path)@ + path_params(ps@),
{
    let mut i: usize = 0;
    let ghost start = path@;
    proof {
        reveal_strlit("Option<");
        reveal_strlit("Input");
        assert(ps@.subrange(0, 0) =~= Seq::<Param>::empty());
    }
    while i < ps.len()
        invariant
            i <= ps.len(),
            path@ == start + path_params(ps@.subrange(0, i as int)),
        decreases ps.len() - i,
    {
        let ghost now = ps@.subrange(0, i + 1);
        assert(now.drop_last() =~= ps@.subrange(0, i as int));
        let p = &ps[i];
        if !str_starts_with(p.ty.as_str(), "Option<") && !str_contains(p.ty.as_str(), "Input") {
            path.append("/:");
            path.append(p.name.as_str());
        }
        i = i + 1;
    }
    assert(ps@.subrange(0, i as int) =~= ps@);
}

/// Compute the HTTP method and path for a classified function; `None` for
/// an event stream (events are routed from the module's events).
pub fn http_route_for(
    op: &OpKind,
    base: &str,
    plural: &str,
    module: &str,
    f: &ApiFn,
    naming: &NamingConfig,
) -> (r: Option<(String, String)>)
    ensures
        match route_spec(op@, base@, plural@, module@, *f, *naming) {
            Some((m, p)) => r matches Some((rm, rp)) && rm@ == m && rp@ == p,
            None => r is None,
        },
{
    let mut coll = owned(base);
    coll.append("/");
    coll.append(plural);
    match op {
        OpKind::List => Some((owned("GET"), coll)),
        OpKind::Create => Some((owned("POST"), coll)),
        OpKind::GetById => {
            coll.append("/:id");
            Some((owned("GET"), coll))
        },
        OpKind::Update => {
            coll.append("/:id");
            Some((owned("PUT"), coll))
        },
        OpKind::Delete => {
            coll.append("/:id");
            Some((owned("DELETE"), coll))
        },
        OpKind::JunctionList { child_segment } => {
            coll.append("/:parent_id/");
            coll.append(child_segment.as_str());
            Some((owned("GET"), coll))
        },
        OpKind::JunctionAdd { child_segment } => {
            coll.append("/:parent_id/");
            coll.append(child_segment.as_str());
            Some((owned("POST"), coll))
        },
        OpKind::JunctionRemove { child_segment } => {
            coll.append("/:parent_id/");
            coll.append(child_segment.as_str());
            coll.append("/:child_id");
            Some((owned("DELETE"), coll))
        },
        OpKind::EventStream => None,
        OpKind::CustomGet | OpKind::CustomPost => {
            let is_get = is_read_op(op);
            let action = naming.derive_action(module, f.name.as_str());
            if action.as_str().unicode_len() > 0 {
                coll.append("/");
                coll.append(action.as_str());
            }
            if is_get {
                path_params_exec(&f.params, &mut coll);
                Some((owned("GET"), coll))
            } else {
                Some((owned("POST"), coll))
            }
        },
    }
}

// ─── Server metadata ────────────────────────────────────────────────────────

/// A route as (method, path, handler, module).
pub type RouteV = (Seq<char>, Seq<char>, Seq<char>, Seq<char>);

/// The view of a route.
pub open spec fn route_v(r: HttpRouteMeta) -> RouteV {
    (r.method@, r.path@, r.handler_name@, r.module_name@)
}

/// The views of a list of routes.
pub open spec fn routes_v(rs: Seq<HttpRouteMeta>) -> Seq<RouteV> {
    Seq::new(rs.len(), |i: int| route_v(rs[i]))
}

/// The view of a parameter record.
pub open spec fn pm_v(p: ParamMeta) -> (Seq<char>, Seq<char>) {
    (p.name@, p.param_type@)
}

/// The parameter records of a function's parameters.
pub open spec fn params_v(ps: Seq<Param>) -> Seq<(Seq<char>, Seq<char>)> {
    Seq::new(ps.len(), |i: int| (ps[i].name@, ps[i].ty@))
}

/// The views of a list of parameter records.
pub open spec fn pms_v(ps: Seq<ParamMeta>) -> Seq<(Seq<char>, Seq<char>)> {
    Seq::new(ps.len(), |i: int| pm_v(ps[i]))
}

/// The HTTP base path of a module: store-based modules are scoped under the
/// route prefix when one is configured.
pub open spec fn http_base(m: ApiModule, prefix: Option<RoutePrefix>) -> Seq<char> {
    let is_store = m.functions@.len() > 0 && m.functions@[0].first_param_is_store;
    match prefix {
        Some(p) => if is_store {
            "/api/"@ + p.segments@
        } else {
            "/api"@
        },
        None => "/api"@,
    }
}

/// The routes of a module's functions, in order.
pub open spec fn fn_routes(fs: Seq<ApiFn>, m: ApiModule, cfg: Config) -> Seq<RouteV>
    decreases fs.len(),
{
    if fs.len() == 0 {
        Seq::empty()
    } else {
        let f = fs.last();
        let rest = fn_routes(fs.drop_last(), m, cfg);
        match route_spec(
            classify_fn_spec(f),
            http_base(m, cfg.route_prefix),
            url_for_module_spec(cfg.naming, m),
            m.name@,
            f,
            cfg.naming,
        ) {
            Some((meth, path)) => rest.push((meth, path, command_spec(cfg.naming, m.name@, f), m.name@)),
            None => rest,
        }
    }
}

/// The scoped SSE path of an event under a route prefix.
pub open spec fn scoped_sse_path(segments: Seq<char>, over: Option<Seq<char>>, ev_name: Seq<char>) -> Seq<char> {
    match over {
        Some(o) => if starts_with(o, "/api/"@) {
            "/api/"@ + segments + "/"@ + o.subrange(5, o.len() as int)
        } else {
            "/api/"@ + segments + o
        },
        None => "/api/"@ + segments + "/events/"@ + ev_name,
    }
}

/// The SSE routes of one event: the unscoped one, and the prefix-scoped one
/// when a route prefix is configured.
pub open spec fn event_route(e: EventFn, module: Seq<char>, cfg: Config) -> Seq<RouteV> {
    let ev_name = replace_char(e.name@, '_', '-');
    let over = cfg.sse_route_overrides.get_spec(e.name@);
    let unscoped = match over {
        Some(o) => o,
        None => "/api/events/"@ + ev_name,
    };
    let first = seq![("GET"@, unscoped, e.name@ + "_sse"@, module)];
    match cfg.route_prefix {
        Some(p) => first.push(("GET"@, scoped_sse_path(p.segments@, over, ev_name), e.name@ + "_sse_scoped"@, module)),
        None => first,
    }
}

/// The SSE routes of a module's events, in order.
pub open spec fn event_routes(es: Seq<EventFn>, module: Seq<char>, cfg: Config) -> Seq<RouteV>
    decreases es.len(),
{
    if es.len() == 0 {
        Seq::empty()
    } else {
        event_routes(es.drop_last(), module, cfg) + event_route(es.last(), module, cfg)
    }
}

/// The routes of every module, in order: each module's function routes,
/// then its event routes.
pub open spec fn all_routes(ms: Seq<ApiModule>, cfg: Config) -> Seq<RouteV>
    decreases ms.len(),
{
    if ms.len() == 0 {
        Seq::empty()
    } else {
        let m = ms.last();
        all_routes(ms.drop_last(), cfg) + fn_routes(m.functions@, m, cfg) + event_routes(m.events@, m.name@, cfg)
    }
}

/// An IPC command as (name, parameters, return type).
pub type IpcV = (Seq<char>, Seq<(Seq<char>, Seq<char>)>, Seq<char>);

/// The IPC commands of a module's functions.
pub open spec fn fn_ipc(fs: Seq<ApiFn>, module: Seq<char>, naming: NamingConfig) -> Seq<IpcV> {
    Seq::new(fs.len(), |i: int| (command_spec(naming, module, fs[i]), params_v(fs[i].params@), fs[i].return_type@))
}

/// The IPC commands of every module, in order.
pub open spec fn all_ipc(ms: Seq<ApiModule>, naming: NamingConfig) -> Seq<IpcV>
    decreases ms.len(),
{
    if ms.len() == 0 {
        Seq::empty()
    } else {
        all_ipc(ms.drop_last(), naming) + fn_ipc(ms.last().functions@, ms.last().name@, naming)
    }
}

/// The MCP tools of a module's functions, as (name, description,
/// parameters).
pub open spec fn fn_mcp(fs: Seq<ApiFn>, module: Seq<char>, naming: NamingConfig) -> Seq<IpcV> {
    Seq::new(fs.len(), |i: int| (command_spec(naming, module, fs[i]), fs[i].doc@, params_v(fs[i].params@)))
        .map_values(|t: (Seq<char>, Seq<char>, Seq<(Seq<char>, Seq<char>)>)| (t.0, t.2, t.1))
}

/// The MCP tools of every module, in order, as (name, parameters,
/// description).
pub open spec fn all_mcp(ms: Seq<ApiModule>, naming: NamingConfig) -> Seq<IpcV>
    decreases ms.len(),
{
    if ms.len() == 0 {
        Seq::empty()
    } else {
        all_mcp(ms.drop_last(), naming) + fn_mcp(ms.last().functions@, ms.last().name@, naming)
    }
}

/// The view of an IPC command.
pub open spec fn ipc_v(c: IpcCommandMeta) -> IpcV {
    (c.command_name@, pms_v(c.params@), c.return_type@)
}

/// The view of an MCP tool, as (name, parameters, description).
pub open spec fn mcp_v(t: McpToolMeta) -> IpcV {
    (t.tool_name@, pms_v(t.params@), t.description@)
}

fn param_metas(ps: &Vec<Param>) -> (r: Vec<ParamMeta>)
    ensures
        pms_v(r@) == params_v(ps@),
{
    let mut r: Vec<ParamMeta> = Vec::new();
    let mut i: usize = 0;
    while i < ps.len()
        invariant
            i <= ps.len(),
            r@.len() == i,
            forall|j: int| 0 <= j < i ==> pm_v(#[trigger] r@[j]) == (ps@[j].name@, ps@[j].ty@),
        decreases ps.len() - i,
    {
        r.push(ParamMeta { name: ps[i].name.clone(), param_type: ps[i].ty.clone() });
        i = i + 1;
    }
    assert(pms_v(r@) =~= params_v(ps@));
    r
}

fn sse_routes(e: &EventFn, module: &String, cfg: &Config, routes: &mut Vec<HttpRouteMeta>)
    ensures
        routes_v(final(routes)@) == routes_v(old(routes)@) + event_route(*e, module@, *cfg),
{
    proof {
        reveal_strlit("/api/");
    }
    let ghost before = routes_v(routes@);
    let ev_name = event_name(e.name.as_str());
    assert(ev_name@ == replace_char(e.name@, '_', '-'));
    let over = cfg.sse_route_overrides.get(e.name.as_str());
    let unscoped = match &over {
        Some(o) => o.clone(),
        None => {
            let mut u = owned("/api/events/");
            u.append(ev_name.as_str());
            u
        },
    };
    let mut h1 = e.name.clone();
    h1.append("_sse");
    routes.push(HttpRouteMeta { method: owned("GET"), path: unscoped, handler_name: h1, module_name: module.clone() });
    match &cfg.route_prefix {
        Some(p) => {
            let mut scoped = owned("/api/");
            scoped.append(p.segments.as_str());
            match &over {
                Some(o) => {
                    if str_starts_with(o.as_str(), "/api/") {
                        let v = chars_of(o.as_str());
                        let rest = string_of_range(&v, 5, v.len());
                        scoped.append("/");
                        scoped.append(rest.as_str());
                    } else {
                        scoped.append(o.as_str());
                    }
                },
                None => {
                    scoped.append("/events/");
                    scoped.append(ev_name.as_str());
                },
            }
            let mut h2 = e.name.clone();
            h2.append("_sse_scoped");
            routes.push(
                HttpRouteMeta { method: owned("GET"), path: scoped, handler_name: h2, module_name: module.clone() },
            );
        },
        None => {},
    }
    assert(routes_v(routes@) =~= before + event_route(*e, module@, *cfg));
}

/// Build the server metadata from the parsed modules: one HTTP route per
/// routed function (scoped under the route prefix for store-based modules)
/// and one or two SSE routes per event, one IPC command and one MCP tool
/// per function.
pub fn extract_server_metadata(modules: &Vec<ApiModule>, config: &Config) -> (out: ServersOutput)
    ensures
        routes_v(out.http_routes@) == all_routes(modules@, *config),
        Seq::new(out.ipc_commands@.len(), |i: int| ipc_v(out.ipc_commands@[i])) == all_ipc(modules@, config.naming),
        Seq::new(out.mcp_tools@.len(), |i: int| mcp_v(out.mcp_tools@[i])) == all_mcp(modules@, config.naming),
{
    let mut http_routes: Vec<HttpRouteMeta> = Vec::new();
    let mut ipc_commands: Vec<IpcCommandMeta> = Vec::new();
    let mut mcp_tools: Vec<McpToolMeta> = Vec::new();
    let mut i: usize = 0;
    assert(modules@.subrange(0, 0) =~= Seq::<ApiModule>::empty());
    assert(routes_v(http_routes@) =~= Seq::<RouteV>::empty());
    while i < modules.len()
        invariant
            i <= modules.len(),
            routes_v(http_routes@) == all_routes(modules@.subrange(0, i as int), *config),
            Seq::new(ipc_commands@.len(), |j: int| ipc_v(ipc_commands@[j])) == all_ipc(
                modules@.subrange(0, i as int),
                config.naming,
            ),
            Seq::new(mcp_tools@.len(), |j: int| mcp_v(mcp_tools@[j])) == all_mcp(
                modules@.subrange(0, i as int),
                config.naming,
            ),
        decreases modules.len() - i,
    {
        let m = &modules[i];
        let ghost now = modules@.subrange(0, i + 1);
        assert(now.drop_last() =~= modules@.subrange(0, i as int));
        assert(now.last() == *m);
        let url_plural = config.naming.url_for_module(m);
        let is_store = m.functions.len() > 0 && m.functions[0].first_param_is_store;
        let base = match &config.route_prefix {
            Some(p) => if is_store {
                let mut b = owned("/api/");
                b.append(p.segments.as_str());
                b
            } else {
                owned("/api")
            },
            None => owned("/api"),
        };
        assert(base@ == http_base(*m, config.route_prefix));
        let ghost r0 = routes_v(http_routes@);
        let ghost c0 = Seq::new(ipc_commands@.len(), |j: int| ipc_v(ipc_commands@[j]));
        let ghost t0 = Seq::new(mcp_tools@.len(), |j: int| mcp_v(mcp_tools@[j]));
        let mut k: usize = 0;
        assert(m.functions@.subrange(0, 0) =~= Seq::<ApiFn>::empty());
        assert(fn_ipc(m.functions@.subrange(0, 0), m.name@, config.naming) =~= Seq::<IpcV>::empty());
        assert(fn_mcp(m.functions@.subrange(0, 0), m.name@, config.naming) =~= Seq::<IpcV>::empty());
        while k < m.functions.len()
            invariant
                k <= m.functions.len(),
                *m == modules@[i as int],
                base@ == http_base(*m, config.route_prefix),
                url_plural@ == url_for_module_spec(config.naming, *m),
                routes_v(http_routes@) == r0 + fn_routes(m.functions@.subrange(0, k as int), *m, *config),
                Seq::new(ipc_commands@.len(), |j: int| ipc_v(ipc_commands@[j])) == c0 + fn_ipc(
                    m.functions@.subrange(0, k as int),
                    m.name@,
                    config.naming,
                ),
                Seq::new(mcp_tools@.len(), |j: int| mcp_v(mcp_tools@[j])) == t0 + fn_mcp(
                    m.functions@.subrange(0, k as int),
                    m.name@,
                    config.naming,
                ),
            decreases m.functions.len() - k,
        {
            let f = &m.functions[k];
            let ghost fnow = m.functions@.subrange(0, k + 1);
            assert(fnow.drop_last() =~= m.functions@.subrange(0, k as int));
            assert(fnow.last() == *f);
            let op = classify_op(f);
            let handler_name = command_name(m.name.as_str(), f, &config.naming);
            let ghost rb = http_routes@;
            match http_route_for(&op, base.as_str(), url_plural.as_str(), m.name.as_str(), f, &config.naming) {
                Some((method, path)) => {
                    http_routes.push(
                        HttpRouteMeta { method, path, handler_name: handler_name.clone(), module_name: m.name.clone() },
                    );
                    assert(routes_v(http_routes@) =~= routes_v(rb).push(route_v(http_routes@.last())));
                },
                None => {},
            }
            let ghost cb = Seq::new(ipc_commands@.len(), |j: int| ipc_v(ipc_commands@[j]));
            let ps = param_metas(&f.params);
            let ps2 = param_metas(&f.params);
            ipc_commands.push(
                IpcCommandMeta { command_name: handler_name.clone(), params: ps, return_type: f.return_type.clone() },
            );
            assert(Seq::new(ipc_commands@.len(), |j: int| ipc_v(ipc_commands@[j])) =~= cb.push(
                ipc_v(ipc_commands@.last()),
            ));
            assert(fn_ipc(fnow, m.name@, config.naming) =~= fn_ipc(m.functions@.subrange(0, k as int), m.name@, config.naming).push(
                (command_spec(config.naming, m.name@, *f), params_v(f.params@), f.return_type@),
            ));
            let ghost tb = Seq::new(mcp_tools@.len(), |j: int| mcp_v(mcp_tools@[j]));
            mcp_tools.push(McpToolMeta { tool_name: handler_name, description: f.doc.clone(), params: ps2 });
            assert(Seq::new(mcp_tools@.len(), |j: int| mcp_v(mcp_tools@[j])) =~= tb.push(mcp_v(mcp_tools@.last())));
            assert(fn_mcp(fnow, m.name@, config.naming) =~= fn_mcp(m.functions@.subrange(0, k as int), m.name@, config.naming).push(
                (command_spec(config.naming, m.name@, *f), params_v(f.params@), f.doc@),
            ));
            k = k + 1;
        }
        assert(m.functions@.subrange(0, k as int) =~= m.functions@);
        let ghost r1 = routes_v(http_routes@);
        let mut e: usize = 0;
        assert(m.events@.subrange(0, 0) =~= Seq::<EventFn>::empty());
        assert(r1 =~= r1 + event_routes(m.events@.subrange(0, 0), m.name@, *config));
        while e < m.events.len()
            invariant
                e <= m.events.len(),
                *m == modules@[i as int],
                routes_v(http_routes@) == r1 + event_routes(m.events@.subrange(0, e as int), m.name@, *config),
            decreases m.events.len() - e,
        {
            let ghost enow = m.events@.subrange(0, e + 1);
            assert(enow.drop_last() =~= m.events@.subrange(0, e as int));
            sse_routes(&m.events[e], &m.name, config, &mut http_routes);
            e = e + 1;
        }
        assert(m.events@.subrange(0, e as int) =~= m.events@);
        i = i + 1;
    }
    assert(modules@.subrange(0, i as int) =~= modules@);
    ServersOutput { http_routes, ipc_commands, mcp_tools }
}

} // verus!
