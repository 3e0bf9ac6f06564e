//! Server transport logic: type strings, operation classification, API
//! metadata and configuration.

pub mod classify;
pub mod config;
pub mod imports;
pub mod manifest;
pub mod merge;
pub mod parse;
pub mod qualify;
pub mod rewrite;
pub mod routes;
pub mod scan;
pub mod types;
pub mod use_stmts;

use vstd::prelude::*;

use crate::clients::ts_bindings::{add_new, bindings_text, emit};
use crate::ir::ServersOutput;
use crate::servers::config::{Config, GeneratorConfig};
use crate::servers::merge::{apply_overlays, overlays_applied, ScanResult};
use crate::servers::parse::ApiModule;
use crate::servers::qualify::all_fns;
use crate::servers::routes::{all_ipc, all_mcp, all_routes, extract_server_metadata, fn_ipc, fn_mcp, ipc_v, mcp_v, routes_v};
use crate::servers::types::{vec_contains_str, NamingConfig};
use crate::servers::scan::SkipRecord;

verus! {

/// The result of a server generation run: the modules the generators
/// consume, the scan's skip records, and the transport metadata.
#[derive(Debug)]
pub struct ServerRun {
    /// The API modules, after the singleton overlay and command overrides.
    pub modules: Vec<ApiModule>,
    /// The skip records of the scan, each to be reported as a warning.
    pub skips: Vec<SkipRecord>,
    /// HTTP routes, IPC commands and MCP tools of the modules.
    pub output: ServersOutput,
    /// The bindings files the schema-known aliases go to, each once.
    pub bindings: Vec<String>,
    /// The schema-known bindings text.
    pub schema_ts: String,
}

/// The bindings files of the client generators, each once, in order of
/// first mention.
pub open spec fn generator_bindings_spec(gs: Seq<GeneratorConfig>) -> Seq<Seq<char>>
    decreases gs.len(),
{
    if gs.len() == 0 {
        Seq::empty()
    } else {
        add_new(generator_bindings_spec(gs.drop_last()), gs.last().bindings_spec())
    }
}

/// The distinct bindings files the schema-known aliases are written to:
/// the `bindings_path` of each HTTP or HTTP+IPC client generator, once, in
/// order.
pub fn generator_bindings(generators: &Vec<GeneratorConfig>) -> (r: Vec<String>)
    ensures
        r.deep_view() == generator_bindings_spec(generators@),
{
    let mut out: Vec<String> = Vec::new();
    let mut i: usize = 0;
    assert(generators@.subrange(0, 0) =~= Seq::<GeneratorConfig>::empty());
    while i < generators.len()
        invariant
            i <= generators.len(),
            out.deep_view() == generator_bindings_spec(generators@.subrange(0, i as int)),
        decreases generators.len() - i,
    {
        let g = &generators[i];
        let ghost s = generators@.subrange(0, i + 1);
        assert(s.drop_last() =~= generators@.subrange(0, i as int));
        assert(s.last() == *g);
        match g.bindings_path() {
            Some(p) => {
                if !vec_contains_str(&out, p.as_str()) {
                    let ghost before = out.deep_view();
                    out.push(p.clone());
                    assert(out.deep_view() =~= before.push(p@));
                }
            },
            None => {},
        }
        i = i + 1;
    }
    assert(generators@.subrange(0, i as int) =~= generators@);
    out
}

/// Decide a server generation run from the scanned API modules: fail when
/// the API directory does not exist; otherwise apply the singleton overlay
/// and the command overrides and describe the transports generated for the
/// resulting modules; when any module is left, pick the bindings files of
/// the client generators and render the schema-known aliases they get.
pub fn generate(api_dir_exists: bool, scanned: ScanResult, config: &Config) -> (r: Result<ServerRun, String>)
    ensures
        r is Err <==> !api_dir_exists,
        r matches Err(e) ==> e@ == "API directory does not exist: "@ + config.api_dir@,
        r matches Ok(run) ==> {
            &&& overlays_applied(run.modules@, scanned.modules@, config.naming)
            &&& run.skips@ == scanned.skips@
            &&& routes_v(run.output.http_routes@) == all_routes(run.modules@, *config)
            &&& Seq::new(run.output.ipc_commands@.len(), |i: int| ipc_v(run.output.ipc_commands@[i])) == all_ipc(
                run.modules@,
                config.naming,
            )
            &&& Seq::new(run.output.mcp_tools@.len(), |i: int| mcp_v(run.output.mcp_tools@[i])) == all_mcp(
                run.modules@,
                config.naming,
            )
            &&& run.modules@.len() == 0 ==> run.bindings@.len() == 0 && run.schema_ts@.len() == 0
            &&& run.modules@.len() > 0 ==> {
                &&& run.bindings.deep_view() == generator_bindings_spec(config.generators@)
                &&& run.schema_ts@ == bindings_text(config.schema_entities@)
            }
        },
{
    if !api_dir_exists {
        let mut e = String::from_str("API directory does not exist: ");
        e.append(config.api_dir.as_str());
        return Err(e);
    }
    let ScanResult { modules, skips } = scanned;
    let mut modules = modules;
    apply_overlays(&mut modules, &config.naming);
    let output = extract_server_metadata(&modules, config);
    if modules.len() == 0 {
        return Ok(ServerRun { modules, skips, output, bindings: Vec::new(), schema_ts: String::new() });
    }
    let bindings = generator_bindings(&config.generators);
    let schema_ts = emit(&config.schema_entities);
    Ok(ServerRun { modules, skips, output, bindings, schema_ts })
}

/// Every API function gives exactly one IPC command and one MCP tool, in
/// function order, and the two carry the same name; the route prefix plays
/// no part in either.
pub proof fn law_one_command_and_tool_per_function(ms: Seq<ApiModule>, naming: NamingConfig)
    ensures
        all_ipc(ms, naming).len() == all_fns(ms).len(),
        all_mcp(ms, naming).len() == all_fns(ms).len(),
        forall|k: int| 0 <= k < all_fns(ms).len() ==> (#[trigger] all_ipc(ms, naming)[k]).0 == all_mcp(ms, naming)[k].0,
    decreases ms.len(),
{
    if ms.len() > 0 {
        let init = ms.drop_last();
        law_one_command_and_tool_per_function(init, naming);
        let m = ms.last();
        let a = all_ipc(init, naming);
        let b = all_mcp(init, naming);
        let fa = fn_ipc(m.functions@, m.name@, naming);
        let fb = fn_mcp(m.functions@, m.name@, naming);
        assert(fa.len() == m.functions@.len());
        assert(fb.len() == m.functions@.len());
        assert forall|k: int| 0 <= k < all_fns(ms).len() implies (#[trigger] all_ipc(ms, naming)[k]).0 == all_mcp(
            ms,
            naming,
        )[k].0 by {
            if k < a.len() {
                assert(all_ipc(ms, naming)[k] == a[k]);
                assert(all_mcp(ms, naming)[k] == b[k]);
                assert(all_ipc(init, naming)[k].0 == all_mcp(init, naming)[k].0);
            } else {
                let j = k - a.len();
                assert(all_ipc(ms, naming)[k] == fa[j]);
                assert(all_mcp(ms, naming)[k] == fb[j]);
            }
        }
    }
}

} // verus!
