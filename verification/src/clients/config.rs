//! Configuration of the client generators, and the record of a type that
//! fell back to an untyped placeholder.

use vstd::prelude::*;

use crate::schema::model::{EntityDef, EnumDef};
use crate::servers::config::{pagination_for, pagination_for_spec, ApiSurface, PaginationConfig, RoutePrefix};
use crate::servers::types::{NamingConfig, Overrides};

verus! {

/// Client-side code generators (TypeScript and the admin registry).
#[derive(Debug, Clone, PartialEq, Eq)]
pub enum ClientGenerator {
    /// Unified TypeScript transport layer with HTTP and IPC implementations.
    HttpTauriIpcSplit {
        /// Output file path.
        output: String,
        /// Path of `bindings.ts`.
        bindings_path: String,
    },
    /// TypeScript HTTP-only client.
    HttpTs {
        /// Output file path.
        output: String,
        /// Path of `bindings.ts`.
        bindings_path: String,
    },
    /// Admin entity registry (TypeScript).
    AdminRegistry {
        /// Output file path.
        output: String,
    },
}

impl ClientGenerator {
    /// The bindings file the generator reads, if it reads one.
    pub open spec fn bindings_spec(&self) -> Option<Seq<char>> {
        match self {
            ClientGenerator::HttpTauriIpcSplit { bindings_path, .. } => Some(bindings_path@),
            ClientGenerator::HttpTs { bindings_path, .. } => Some(bindings_path@),
            ClientGenerator::AdminRegistry { .. } => None,
        }
    }

    /// The bindings file the generator reads: the HTTP and HTTP+IPC clients
    /// read one, the admin registry none.
    pub fn bindings_path(&self) -> (r: Option<&String>)
        ensures
            match r {
                Some(p) => self.bindings_spec() == Some(p@),
                None => self.bindings_spec() is None,
            },
    {
        match self {
            ClientGenerator::HttpTauriIpcSplit { bindings_path, .. } => Some(bindings_path),
            ClientGenerator::HttpTs { bindings_path, .. } => Some(bindings_path),
            ClientGenerator::AdminRegistry { .. } => None,
        }
    }
}

/// A type the TypeScript emitters could not find in `bindings.ts` and
/// replaced with `Record<string, unknown>`.
#[derive(Debug, Clone, PartialEq, Eq)]
pub struct FallbackRecord {
    /// Output `.ts` file the placeholder was emitted into.
    pub output: String,
    /// `bindings.ts` file the emitter consulted.
    pub bindings_path: String,
    /// The type name that fell back.
    pub type_ident: String,
}

impl FallbackRecord {
    /// The warning text of the record.
    pub open spec fn message_spec(&self) -> Seq<char> {
        "ontogen: type '"@ + self.type_ident@ + "' not found in `"@ + self.bindings_path@
            + "` - using `Record<string, unknown>` placeholder in `"@ + self.output@ + "`"@
    }

    /// The warning text of the record, naming the type, the bindings file
    /// and the output file.
    pub fn message(&self) -> (r: String)
        ensures
            r@ == self.message_spec(),
    {
        let mut r = String::from_str("ontogen: type '");
        r.append(self.type_ident.as_str());
        r.append("' not found in `");
        r.append(self.bindings_path.as_str());
        r.append("` - using `Record<string, unknown>` placeholder in `");
        r.append(self.output.as_str());
        r.append("`");
        r
    }
}

/// Configuration of the client generation run.
#[derive(Debug, Clone)]
pub struct Config {
    /// Directory containing the API source files.
    pub api_dir: String,
    /// State type that service functions take first.
    pub state_type: String,
    /// Import path of the service modules.
    pub service_import_path: String,
    /// Import path of shared types.
    pub types_import_path: String,
    /// Import path of the state type.
    pub state_import: String,
    /// Naming rules.
    pub naming: NamingConfig,
    /// Client generators to run.
    pub generators: Vec<ClientGenerator>,
    /// SSE route overrides, by event function name.
    pub sse_route_overrides: Overrides,
    /// Commands left out of the TypeScript client.
    pub ts_skip_commands: Vec<String>,
    /// Route prefix scoping store-based routes.
    pub route_prefix: Option<RoutePrefix>,
    /// Store type for project-scoped data access.
    pub store_type: Option<String>,
    /// Import path of the store type.
    pub store_import: Option<String>,
    /// Schema entities.
    pub schema_entities: Vec<EntityDef>,
    /// Schema string enums.
    pub schema_enums: Vec<EnumDef>,
    /// Label overrides for the admin registry.
    pub label_overrides: Overrides,
    /// Pagination for the primary surface's list operations.
    pub pagination: Option<PaginationConfig>,
    /// Extra source roots merged into the long-tail type pool.
    pub pool_extra_roots: Vec<String>,
    /// Source paths left out of the long-tail type pool.
    pub pool_exclude_paths: Vec<String>,
    /// API surfaces scanned besides the primary one.
    pub extra_surfaces: Vec<ApiSurface>,
}

impl Config {
    /// Pagination for `module`'s list methods when the function came from
    /// the surface with index `surface`.
    pub fn pagination_for(&self, module: &str, surface: usize) -> (r: Option<&PaginationConfig>)
        requires
            surface <= self.extra_surfaces@.len(),
        ensures
            r matches Some(p) ==> pagination_for_spec(self.pagination, self.extra_surfaces@, module@, surface as int)
                == Some(*p),
            r is None ==> pagination_for_spec(self.pagination, self.extra_surfaces@, module@, surface as int) is None,
    {
        pagination_for(&self.pagination, &self.extra_surfaces, module, surface)
    }

    /// Whether any surface paginates.
    pub fn any_pagination(&self) -> (b: bool)
        ensures
            b == (self.pagination is Some || exists|i: int|
                0 <= i < self.extra_surfaces@.len() && (#[trigger] self.extra_surfaces@[i]).pagination is Some),
    {
        if self.pagination.is_some() {
            return true;
        }
        let mut i: usize = 0;
        while i < self.extra_surfaces.len()
            invariant
                i <= self.extra_surfaces.len(),
                forall|j: int| 0 <= j < i ==> (#[trigger] self.extra_surfaces@[j]).pagination is None,
            decreases self.extra_surfaces.len() - i,
        {
            if self.extra_surfaces[i].pagination.is_some() {
                return true;
            }
            i = i + 1;
        }
        false
    }
}

} // verus!
