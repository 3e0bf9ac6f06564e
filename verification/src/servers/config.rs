//! Configuration of the server-side transport pipeline: API surfaces,
//! pagination, route prefixes and the server generators to run.

use vstd::prelude::*;

use crate::clients::config::ClientGenerator;
use crate::servers::parse::DEFAULT_STORE_ACCESSOR;
use crate::servers::types::{vec_contains_str, NamingConfig, Overrides};
use crate::text::owned;

verus! {

/// Offset-based pagination for `list` endpoints.
#[derive(Debug, Clone, Copy, PartialEq, Eq, Structural)]
pub struct PaginationConfig {
    /// Page size when the caller gives no `limit`.
    pub default_limit: u32,
    /// Largest `limit` a caller may ask for.
    pub max_limit: u32,
}

/// One directory of service API modules, with the import paths and store
/// settings its generated handlers use.
#[derive(Debug, Clone)]
pub struct ApiSurface {
    /// Directory of API source files.
    pub api_dir: String,
    /// Module path the service functions are imported from.
    pub service_import_path: String,
    /// Module path the signature types are imported from.
    pub types_import_path: String,
    /// State method returning the store; `store` when absent.
    pub store_accessor: Option<String>,
    /// Store type accepted as a first parameter.
    pub store_type: Option<String>,
    /// Pagination for this surface's `list` endpoints.
    pub pagination: Option<PaginationConfig>,
    /// Modules pagination applies to; all when empty.
    pub paginated_modules: Vec<String>,
    /// Schema directory of this surface, if it has its own.
    pub schema_dir: Option<String>,
}

impl ApiSurface {
    /// The state method a store-scoped handler calls.
    pub open spec fn store_accessor_spec(&self) -> Seq<char> {
        match self.store_accessor {
            Some(s) => s@,
            None => DEFAULT_STORE_ACCESSOR@,
        }
    }

    /// Whether pagination applies to `module`.
    pub open spec fn paginates(&self, module: Seq<char>) -> bool {
        self.pagination is Some && (self.paginated_modules@.len() == 0 || self.paginated_modules.deep_view().contains(
            module,
        ))
    }

    /// The state method a store-scoped handler calls (`store` by default).
    pub fn store_accessor(&self) -> (r: &str)
        ensures
            r@ == self.store_accessor_spec(),
    {
        match &self.store_accessor {
            Some(s) => s.as_str(),
            None => DEFAULT_STORE_ACCESSOR,
        }
    }

    /// The pagination of `module`'s `list` endpoint: the surface's, when
    /// the surface paginates every module or names this one.
    pub fn pagination_for(&self, module: &str) -> (r: Option<&PaginationConfig>)
        ensures
            self.paginates(module@) ==> r == Some(&self.pagination->0),
            !self.paginates(module@) ==> r is None,
    {
        match &self.pagination {
            Some(p) => {
                if self.paginated_modules.len() == 0 || vec_contains_str(&self.paginated_modules, module) {
                    Some(p)
                } else {
                    None
                }
            },
            None => None,
        }
    }
}

/// The pagination of `module` on the surface with index `surface`: the
/// primary's for surface 0, else that extra surface's.
pub open spec fn pagination_for_spec(
    primary: Option<PaginationConfig>,
    extra: Seq<ApiSurface>,
    module: Seq<char>,
    surface: int,
) -> Option<PaginationConfig> {
    if surface == 0 {
        primary
    } else if extra[surface - 1].paginates(module) {
        extra[surface - 1].pagination
    } else {
        None
    }
}

/// The pagination of `module` on the surface with index `surface`.
pub fn pagination_for<'a>(
    primary: &'a Option<PaginationConfig>,
    extra_surfaces: &'a Vec<ApiSurface>,
    module: &str,
    surface: usize,
) -> (r: Option<&'a PaginationConfig>)
    requires
        surface <= extra_surfaces@.len(),
    ensures
        r matches Some(p) ==> pagination_for_spec(*primary, extra_surfaces@, module@, surface as int) == Some(*p),
        r is None ==> pagination_for_spec(*primary, extra_surfaces@, module@, surface as int) is None,
{
    if surface == 0 {
        match primary {
            Some(p) => Some(p),
            None => None,
        }
    } else {
        extra_surfaces[surface - 1].pagination_for(module)
    }
}

/// A URL prefix that scopes store-based routes (e.g. `projects/:project_id`).
#[derive(Debug, Clone)]
pub struct RoutePrefix {
    /// Path segments, without leading or trailing slashes.
    pub segments: String,
    /// State method taking the prefix parameters and returning the store.
    pub state_accessor: String,
    /// The prefix's path parameters.
    pub params: Vec<PrefixParam>,
}

/// One path parameter of a route prefix.
#[derive(Debug, Clone)]
pub struct PrefixParam {
    /// Parameter name.
    pub name: String,
    /// Rust type.
    pub rust_type: String,
    /// TypeScript type.
    pub ts_type: String,
}

/// A server transport to generate, with its output file.
#[derive(Debug, Clone, PartialEq, Eq)]
pub enum ServerGenerator {
    /// Axum HTTP handlers and router.
    HttpAxum { output: String },
    /// Tauri IPC commands.
    TauriIpc { output: String },
    /// MCP tools.
    Mcp { output: String },
}

/// A generator the transport pipeline runs: a server transport, or a
/// TypeScript client, whose bindings file the pipeline fills with the
/// schema-known aliases before the clients are generated.
#[derive(Debug, Clone, PartialEq, Eq)]
pub enum GeneratorConfig {
    /// A server transport.
    Server(ServerGenerator),
    /// A TypeScript client.
    Client(ClientGenerator),
}

impl GeneratorConfig {
    /// The bindings file of a client generator that reads one.
    pub open spec fn bindings_spec(&self) -> Option<Seq<char>> {
        match self {
            GeneratorConfig::Server(_) => None,
            GeneratorConfig::Client(c) => c.bindings_spec(),
        }
    }

    /// The bindings file of a client generator that reads one; a server
    /// transport reads none.
    pub fn bindings_path(&self) -> (r: Option<&String>)
        ensures
            match r {
                Some(p) => self.bindings_spec() == Some(p@),
                None => self.bindings_spec() is None,
            },
    {
        match self {
            GeneratorConfig::Server(_) => None,
            GeneratorConfig::Client(c) => c.bindings_path(),
        }
    }
}

/// Configuration of the server transport pipeline.
#[derive(Debug, Clone)]
pub struct Config {
    /// Directory of the primary surface's API source files.
    pub api_dir: String,
    /// Application state type accepted as a first parameter.
    pub state_type: String,
    /// Module path the service functions are imported from.
    pub service_import_path: String,
    /// Module path the signature types are imported from.
    pub types_import_path: String,
    /// Import of the state type.
    pub state_import: String,
    /// Naming rules.
    pub naming: NamingConfig,
    /// Generators to run.
    pub generators: Vec<GeneratorConfig>,
    /// Edition rustfmt formats with.
    pub rustfmt_edition: String,
    /// SSE path overrides by event function name.
    pub sse_route_overrides: Overrides,
    /// Prefix scoping store-based routes.
    pub route_prefix: Option<RoutePrefix>,
    /// Store type accepted as a first parameter.
    pub store_type: Option<String>,
    /// Import of the store type.
    pub store_import: Option<String>,
    /// Pagination for the primary surface's `list` endpoints.
    pub pagination: Option<PaginationConfig>,
    /// Further API surfaces, after the primary one.
    pub extra_surfaces: Vec<ApiSurface>,
    /// Schema entities, for generators that describe entity fields.
    pub schema_entities: Vec<crate::schema::model::EntityDef>,
}

impl Config {
    /// The primary surface, made of the top-level fields.
    pub fn primary_surface(&self) -> (s: ApiSurface)
        ensures
            s.api_dir == self.api_dir,
            s.service_import_path == self.service_import_path,
            s.types_import_path == self.types_import_path,
            s.store_accessor is None,
            s.store_type == self.store_type,
            s.pagination == self.pagination,
            s.paginated_modules@.len() == 0,
            s.schema_dir is None,
    {
        ApiSurface {
            api_dir: self.api_dir.clone(),
            service_import_path: self.service_import_path.clone(),
            types_import_path: self.types_import_path.clone(),
            store_accessor: None,
            store_type: self.store_type.clone(),
            pagination: self.pagination,
            paginated_modules: Vec::new(),
            schema_dir: None,
        }
    }

    /// Every surface: the primary one, then the extra ones in order.
    pub fn surfaces(&self) -> (v: Vec<ApiSurface>)
        ensures
            v@.len() == self.extra_surfaces@.len() + 1,
            v@[0].api_dir == self.api_dir,
            v@[0].service_import_path == self.service_import_path,
            v@[0].types_import_path == self.types_import_path,
            v@[0].store_accessor is None,
            v@[0].pagination == self.pagination,
            forall|i: int|
                1 <= i < v@.len() ==> {
                    &&& (#[trigger] v@[i]).api_dir == self.extra_surfaces@[i - 1].api_dir
                    &&& v@[i].service_import_path == self.extra_surfaces@[i - 1].service_import_path
                    &&& v@[i].types_import_path == self.extra_surfaces@[i - 1].types_import_path
                    &&& v@[i].store_accessor == self.extra_surfaces@[i - 1].store_accessor
                    &&& v@[i].store_type == self.extra_surfaces@[i - 1].store_type
                    &&& v@[i].pagination == self.extra_surfaces@[i - 1].pagination
                },
    {
        let mut v = Vec::new();
        v.push(self.primary_surface());
        let mut i: usize = 0;
        while i < self.extra_surfaces.len()
            invariant
                i <= self.extra_surfaces.len(),
                v@.len() == i + 1,
                v@[0].api_dir == self.api_dir,
                v@[0].service_import_path == self.service_import_path,
                v@[0].types_import_path == self.types_import_path,
                v@[0].store_accessor is None,
                v@[0].pagination == self.pagination,
                forall|j: int|
                    1 <= j < v@.len() ==> {
                        &&& (#[trigger] v@[j]).api_dir == self.extra_surfaces@[j - 1].api_dir
                        &&& v@[j].service_import_path == self.extra_surfaces@[j - 1].service_import_path
                        &&& v@[j].types_import_path == self.extra_surfaces@[j - 1].types_import_path
                        &&& v@[j].store_accessor == self.extra_surfaces@[j - 1].store_accessor
                        &&& v@[j].store_type == self.extra_surfaces@[j - 1].store_type
                        &&& v@[j].pagination == self.extra_surfaces@[j - 1].pagination
                    },
            decreases self.extra_surfaces.len() - i,
        {
            let s = &self.extra_surfaces[i];
            v.push(
                ApiSurface {
                    api_dir: s.api_dir.clone(),
                    service_import_path: s.service_import_path.clone(),
                    types_import_path: s.types_import_path.clone(),
                    store_accessor: s.store_accessor.clone(),
                    store_type: s.store_type.clone(),
                    pagination: s.pagination,
                    paginated_modules: s.paginated_modules.clone(),
                    schema_dir: s.schema_dir.clone(),
                },
            );
            i = i + 1;
        }
        v
    }

    /// The pagination of `module` on the surface with index `surface`.
    pub fn pagination_for(&self, module: &str, surface: usize) -> (r: Option<&PaginationConfig>)
        requires
            surface <= self.extra_surfaces@.len(),
        ensures
            r matches Some(p) ==> pagination_for_spec(self.pagination, self.extra_surfaces@, module@, surface as int)
                == Some(*p),
            r is None ==> pagination_for_spec(self.pagination, self.extra_surfaces@, module@, surface as int) is None,
    {
        pagination_for(&self.pagination, &self.extra_surfaces, module, surface)
    }

    /// Whether any surface paginates.
    pub fn any_pagination(&self) -> (b: bool)
        ensures
            b == (self.pagination is Some || exists|i: int|
                0 <= i < self.extra_surfaces@.len() && (#[trigger] self.extra_surfaces@[i]).pagination is Some),
    {
        if self.pagination.is_some() {
            return true;
        }
        let mut i: usize = 0;
        while i < self.extra_surfaces.len()
            invariant
                i <= self.extra_surfaces.len(),
                forall|j: int| 0 <= j < i ==> (#[trigger] self.extra_surfaces@[j]).pagination is None,
            decreases self.extra_surfaces.len() - i,
        {
            if self.extra_surfaces[i].pagination.is_some() {
                return true;
            }
            i = i + 1;
        }
        false
    }
}

impl Default for Config {
    fn default() -> (c: Config)
        ensures
            c.api_dir@ == "src/api/v1"@,
            c.state_type@ == "AppState"@,
            c.service_import_path@ == "crate::api::v1"@,
            c.types_import_path@ == "crate::types"@,
            c.state_import@ == "crate::AppState"@,
            c.generators@.len() == 0,
            c.rustfmt_edition@ == "2021"@,
            c.sse_route_overrides.pairs().len() == 0,
            c.route_prefix is None,
            c.store_type is None,
            c.store_import is None,
            c.pagination is None,
            c.extra_surfaces@.len() == 0,
            c.schema_entities@.len() == 0,
    {
        Config {
            api_dir: owned("src/api/v1"),
            state_type: owned("AppState"),
            service_import_path: owned("crate::api::v1"),
            types_import_path: owned("crate::types"),
            state_import: owned("crate::AppState"),
            naming: NamingConfig::default(),
            generators: Vec::new(),
            rustfmt_edition: owned("2021"),
            sse_route_overrides: Overrides::new(),
            route_prefix: None,
            store_type: None,
            store_import: None,
            pagination: None,
            extra_surfaces: Vec::new(),
            schema_entities: Vec::new(),
        }
    }
}

} // verus!
