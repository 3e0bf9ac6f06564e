//! A fluent builder over the generator stages. The builder records which
//! stages to run and with what settings; [`Pipeline::stages`] resolves them
//! into the stage configurations, in the order the stages run:
//! schema, SeaORM, markdown I/O, DTOs, store, API, servers.

use vstd::prelude::*;

use crate::schema::model::EntityDef;
use crate::schema::parse::opt_v;
use crate::servers::config::Config as ServersConfig;

verus! {

/// The schema module path the store and API stages use by default.
pub const DEFAULT_SCHEMA_MODULE_PATH: &'static str = "crate::schema";

/// The store type the API stage uses once a store stage is registered.
pub const DEFAULT_STORE_TYPE: &'static str = "Store";

/// Where the schema is read from.
#[derive(Debug, Clone)]
pub struct SchemaConfig {
    /// Directory of the schema source files.
    pub schema_dir: String,
}

/// The SeaORM persistence stage.
#[derive(Debug, Clone)]
pub struct SeaOrmConfig {
    /// Where the entity types go.
    pub entity_output: String,
    /// Where the conversions go.
    pub conversion_output: String,
    /// Entities left out of conversion generation.
    pub skip_conversions: Vec<String>,
}

/// The markdown I/O stage.
#[derive(Debug, Clone)]
pub struct MarkdownIoConfig {
    /// Output directory.
    pub output_dir: String,
}

/// The standalone DTO stage.
#[derive(Debug, Clone)]
pub struct DtoConfig {
    /// Output directory.
    pub output_dir: String,
}

/// The store stage.
#[derive(Debug, Clone)]
pub struct StoreConfig {
    /// Where the generated CRUD modules go.
    pub output_dir: String,
    /// Where hook files are scaffolded, if anywhere.
    pub hooks_dir: Option<String>,
    /// Module path of the schema types.
    pub schema_module_path: String,
    /// The persistence backend the store is generated against.
    pub backend: StoreBackendChoice,
}

/// The persistence backend a store is generated against.
#[derive(Debug, Clone, Copy, PartialEq, Eq, Structural)]
pub enum StoreBackendChoice {
    /// The SeaORM stage's database entities.
    Seaorm,
    /// The markdown I/O stage's vault files.
    Markdown,
}

/// The error of a store stage with no persistence stage registered.
pub const NO_PERSISTENCE_BACKEND: &'static str =
    "the store stage needs a persistence backend: register a seaorm or markdown_io stage";

/// The error of a store stage with both persistence stages registered and
/// no choice made between them.
pub const AMBIGUOUS_PERSISTENCE_BACKEND: &'static str =
    "both seaorm and markdown_io are registered: choose the store's persistence backend with store_backend";

/// The error of a store backend chosen whose stage is not registered.
pub const UNREGISTERED_PERSISTENCE_BACKEND: &'static str =
    "store_backend names a persistence backend whose stage is not registered";

/// The store's persistence backend: the one chosen, when its stage is
/// registered; else the only persistence stage registered; an error when
/// none is, when both are and none was chosen, or when the chosen one's
/// stage is missing.
pub open spec fn backend_outcome(
    seaorm: bool,
    markdown: bool,
    choice: Option<StoreBackendChoice>,
) -> Result<StoreBackendChoice, Seq<char>> {
    match choice {
        Some(c) => if (c == StoreBackendChoice::Seaorm && seaorm) || (c == StoreBackendChoice::Markdown && markdown) {
            Ok(c)
        } else {
            Err(UNREGISTERED_PERSISTENCE_BACKEND@)
        },
        None => if seaorm && markdown {
            Err(AMBIGUOUS_PERSISTENCE_BACKEND@)
        } else if seaorm {
            Ok(StoreBackendChoice::Seaorm)
        } else if markdown {
            Ok(StoreBackendChoice::Markdown)
        } else {
            Err(NO_PERSISTENCE_BACKEND@)
        },
    }
}

/// Resolve the store's persistence backend from the persistence stages
/// registered and the explicit choice, if any.
pub fn resolve_store_backend(seaorm: bool, markdown: bool, choice: Option<StoreBackendChoice>) -> (r: Result<
    StoreBackendChoice,
    String,
>)
    ensures
        match backend_outcome(seaorm, markdown, choice) {
            Ok(c) => r == Ok::<StoreBackendChoice, String>(c),
            Err(m) => r matches Err(e) && e@ == m,
        },
{
    match choice {
        Some(c) => {
            if (c == StoreBackendChoice::Seaorm && seaorm) || (c == StoreBackendChoice::Markdown && markdown) {
                Ok(c)
            } else {
                Err(String::from_str(UNREGISTERED_PERSISTENCE_BACKEND))
            }
        },
        None => {
            if seaorm && markdown {
                Err(String::from_str(AMBIGUOUS_PERSISTENCE_BACKEND))
            } else if seaorm {
                Ok(StoreBackendChoice::Seaorm)
            } else if markdown {
                Ok(StoreBackendChoice::Markdown)
            } else {
                Err(String::from_str(NO_PERSISTENCE_BACKEND))
            }
        },
    }
}

/// The API stage.
#[derive(Debug, Clone)]
pub struct ApiConfig {
    /// Where the generated CRUD forwarders go.
    pub output_dir: String,
    /// Entities left out.
    pub exclude: Vec<String>,
    /// Directories scanned for hand-written API modules.
    pub scan_dirs: Vec<String>,
    /// The application state type.
    pub state_type: String,
    /// The store type, if the API calls store methods.
    pub store_type: Option<String>,
    /// Module path of the schema types.
    pub schema_module_path: String,
}

/// The API stage as registered, before its store type is resolved.
#[derive(Debug, Clone)]
pub struct ApiStage {
    /// Output directory.
    pub output_dir: String,
    /// The application state type.
    pub state_type: String,
    /// Entities left out.
    pub exclude: Vec<String>,
    /// Directories scanned for hand-written modules.
    pub scan_dirs: Vec<String>,
    /// An explicit store type.
    pub store_type: Option<String>,
}

/// The servers stage as registered.
#[derive(Debug, Clone)]
pub struct ServersStage {
    /// The servers configuration.
    pub config: ServersConfig,
    /// Directories scanned when no API output is available.
    pub scan_dirs: Vec<String>,
}

/// A fluent builder over the generator pipeline: construct with
/// [`Pipeline::new`], opt into stages, then resolve with
/// [`Pipeline::stages`].
#[derive(Debug, Clone)]
pub struct Pipeline {
    /// Directory of the schema source files.
    pub schema_dir: String,
    /// Module path of the schema types, for the store and API stages.
    pub schema_module_path: String,
    /// The SeaORM stage, if enabled.
    pub seaorm: Option<SeaOrmConfig>,
    /// The markdown I/O stage, if enabled.
    pub markdown_io: Option<MarkdownIoConfig>,
    /// The standalone DTO stage, if enabled.
    pub dtos: Option<DtoConfig>,
    /// The store stage, if enabled: output and hooks directories.
    pub store: Option<(String, Option<String>)>,
    /// The API stage, if enabled.
    pub api: Option<ApiStage>,
    /// The servers stage, if enabled.
    pub servers: Option<ServersStage>,
    /// The store's persistence backend, when chosen explicitly.
    pub store_backend: Option<StoreBackendChoice>,
}

impl Pipeline {
    /// Start a pipeline rooted at `schema_dir`, with no optional stage and
    /// the default schema module path.
    pub fn new(schema_dir: String) -> (p: Pipeline)
        ensures
            p.schema_dir == schema_dir,
            p.schema_module_path@ == DEFAULT_SCHEMA_MODULE_PATH@,
            p.seaorm is None,
            p.markdown_io is None,
            p.dtos is None,
            p.store is None,
            p.api is None,
            p.servers is None,
            p.store_backend is None,
    {
        Pipeline {
            schema_dir,
            schema_module_path: String::from_str(DEFAULT_SCHEMA_MODULE_PATH),
            seaorm: None,
            markdown_io: None,
            dtos: None,
            store: None,
            api: None,
            servers: None,
            store_backend: None,
        }
    }

    /// Choose the store's persistence backend, needed when both the SeaORM
    /// and the markdown I/O stages are registered.
    pub fn store_backend(self, choice: StoreBackendChoice) -> (p: Pipeline)
        ensures
            p == (Pipeline { store_backend: Some(choice), ..self }),
    {
        Pipeline { store_backend: Some(choice), ..self }
    }

    /// Override the schema module path used by the store and API stages.
    pub fn schema_module_path(self, path: String) -> (p: Pipeline)
        ensures
            p == (Pipeline { schema_module_path: path, ..self }),
    {
        Pipeline { schema_module_path: path, ..self }
    }

    /// Enable the SeaORM stage, with no entity skipped.
    pub fn seaorm(self, entity_output: String, conversion_output: String) -> (p: Pipeline)
        ensures
            p == (Pipeline {
                seaorm: Some(SeaOrmConfig { entity_output, conversion_output, skip_conversions: p.seaorm->0.skip_conversions }),
                ..self
            }),
            p.seaorm->0.skip_conversions@.len() == 0,
    {
        Pipeline {
            seaorm: Some(SeaOrmConfig { entity_output, conversion_output, skip_conversions: Vec::new() }),
            ..self
        }
    }

    /// Set the entities skipped in SeaORM conversion generation; no effect
    /// unless the SeaORM stage is enabled.
    pub fn seaorm_skip_conversions(self, skip: Vec<String>) -> (p: Pipeline)
        ensures
            match self.seaorm {
                Some(s) => p == (Pipeline { seaorm: Some(SeaOrmConfig { skip_conversions: skip, ..s }), ..self }),
                None => p == self,
            },
    {
        let mut p = self;
        match p.seaorm {
            Some(s) => {
                p.seaorm = Some(SeaOrmConfig { skip_conversions: skip, ..s });
            },
            None => {},
        }
        p
    }

    /// Enable markdown I/O generation.
    pub fn markdown_io(self, output_dir: String) -> (p: Pipeline)
        ensures
            p == (Pipeline { markdown_io: Some(MarkdownIoConfig { output_dir }), ..self }),
    {
        Pipeline { markdown_io: Some(MarkdownIoConfig { output_dir }), ..self }
    }

    /// Enable standalone Create/Update DTO generation.
    pub fn dtos(self, output_dir: String) -> (p: Pipeline)
        ensures
            p == (Pipeline { dtos: Some(DtoConfig { output_dir }), ..self }),
    {
        Pipeline { dtos: Some(DtoConfig { output_dir }), ..self }
    }

    /// Enable the store stage; `hooks_dir`, when given, receives hook files
    /// scaffolded once and never overwritten.
    pub fn store(self, output_dir: String, hooks_dir: Option<String>) -> (p: Pipeline)
        ensures
            p == (Pipeline { store: Some((output_dir, hooks_dir)), ..self }),
    {
        Pipeline { store: Some((output_dir, hooks_dir)), ..self }
    }

    /// Enable the API stage with its output directory and state type.
    pub fn api(self, output_dir: String, state_type: String) -> (p: Pipeline)
        ensures
            p == (Pipeline {
                api: Some(ApiStage {
                    output_dir,
                    state_type,
                    exclude: p.api->0.exclude,
                    scan_dirs: p.api->0.scan_dirs,
                    store_type: None,
                }),
                ..self
            }),
            p.api->0.exclude@.len() == 0,
            p.api->0.scan_dirs@.len() == 0,
    {
        Pipeline {
            api: Some(ApiStage { output_dir, state_type, exclude: Vec::new(), scan_dirs: Vec::new(), store_type: None }),
            ..self
        }
    }

    /// Exclude entities by name from API generation; no effect unless the
    /// API stage is enabled.
    pub fn api_exclude(self, exclude: Vec<String>) -> (p: Pipeline)
        ensures
            match self.api {
                Some(s) => p == (Pipeline { api: Some(ApiStage { exclude, ..s }), ..self }),
                None => p == self,
            },
    {
        let mut p = self;
        match p.api {
            Some(s) => {
                p.api = Some(ApiStage { exclude, ..s });
            },
            None => {},
        }
        p
    }

    /// Directories scanned for hand-written API modules; no effect unless
    /// the API stage is enabled.
    pub fn api_scan_dirs(self, scan_dirs: Vec<String>) -> (p: Pipeline)
        ensures
            match self.api {
                Some(s) => p == (Pipeline { api: Some(ApiStage { scan_dirs, ..s }), ..self }),
                None => p == self,
            },
    {
        let mut p = self;
        match p.api {
            Some(s) => {
                p.api = Some(ApiStage { scan_dirs, ..s });
            },
            None => {},
        }
        p
    }

    /// Override the store type of the API stage; no effect unless the API
    /// stage is enabled.
    pub fn api_store_type(self, store_type: Option<String>) -> (p: Pipeline)
        ensures
            match self.api {
                Some(s) => p == (Pipeline { api: Some(ApiStage { store_type, ..s }), ..self }),
                None => p == self,
            },
    {
        let mut p = self;
        match p.api {
            Some(s) => {
                p.api = Some(ApiStage { store_type, ..s });
            },
            None => {},
        }
        p
    }

    /// Enable the servers stage with a full configuration and no scan
    /// directory.
    pub fn servers(self, config: ServersConfig) -> (p: Pipeline)
        ensures
            p == (Pipeline { servers: Some(ServersStage { config, scan_dirs: p.servers->0.scan_dirs }), ..self }),
            p.servers->0.scan_dirs@.len() == 0,
    {
        Pipeline { servers: Some(ServersStage { config, scan_dirs: Vec::new() }), ..self }
    }

    /// The directories the servers stage scans when no API output is
    /// available; no effect unless the servers stage is enabled.
    pub fn servers_scan_dirs(self, scan_dirs: Vec<String>) -> (p: Pipeline)
        ensures
            match self.servers {
                Some(s) => p == (Pipeline { servers: Some(ServersStage { scan_dirs, ..s }), ..self }),
                None => p == self,
            },
    {
        let mut p = self;
        match p.servers {
            Some(s) => {
                p.servers = Some(ServersStage { scan_dirs, ..s });
            },
            None => {},
        }
        p
    }

    /// Resolve the stages to run, in their running order: the schema
    /// always, then each enabled stage. The store stage takes its
    /// persistence backend from [`backend_outcome`], and fails the pipeline
    /// when that is an error. The API stage's store type is the explicit
    /// one, else `Store` when the store stage is enabled, else none; the
    /// store and API stages take the schema module path.
    pub fn stages(self) -> (r: Result<PipelineStages, String>)
        ensures
            match self.store {
                Some(_) => backend_outcome(self.seaorm is Some, self.markdown_io is Some, self.store_backend) matches Err(
                    m,
                ) ==> (r matches Err(e) && e@ == m),
                None => true,
            },
            (self.store is None || backend_outcome(self.seaorm is Some, self.markdown_io is Some, self.store_backend)
                is Ok) ==> (r matches Ok(st) && {
                &&& st.schema.schema_dir == self.schema_dir
                &&& st.seaorm == self.seaorm
                &&& st.markdown_io == self.markdown_io
                &&& st.dtos == self.dtos
                &&& match self.store {
                    Some(s) => st.store matches Some(c) && c.output_dir == s.0 && c.hooks_dir == s.1
                        && c.schema_module_path == self.schema_module_path && Ok::<StoreBackendChoice, Seq<char>>(
                        c.backend,
                    ) == backend_outcome(self.seaorm is Some, self.markdown_io is Some, self.store_backend),
                    None => st.store is None,
                }
                &&& match self.api {
                    Some(a) => st.api matches Some(c) && {
                        &&& c.output_dir == a.output_dir
                        &&& c.exclude == a.exclude
                        &&& c.scan_dirs == a.scan_dirs
                        &&& c.state_type == a.state_type
                        &&& c.schema_module_path == self.schema_module_path
                        &&& opt_v(c.store_type) == resolved_store_type(self.store is Some, opt_v(a.store_type))
                    },
                    None => st.api is None,
                }
                &&& st.servers == self.servers
            }),
    {
        let store_enabled = self.store.is_some();
        let store = match self.store {
            Some(s) => {
                let backend = match resolve_store_backend(
                    self.seaorm.is_some(),
                    self.markdown_io.is_some(),
                    self.store_backend,
                ) {
                    Ok(b) => b,
                    Err(e) => {
                        return Err(e);
                    },
                };
                Some(
                    StoreConfig {
                        output_dir: s.0,
                        hooks_dir: s.1,
                        schema_module_path: self.schema_module_path.clone(),
                        backend,
                    },
                )
            },
            None => None,
        };
        let api = match self.api {
            Some(a) => {
                let store_type = match a.store_type {
                    Some(explicit) => Some(explicit),
                    None => if store_enabled {
                        Some(String::from_str(DEFAULT_STORE_TYPE))
                    } else {
                        None
                    },
                };
                Some(
                    ApiConfig {
                        output_dir: a.output_dir,
                        exclude: a.exclude,
                        scan_dirs: a.scan_dirs,
                        state_type: a.state_type,
                        store_type,
                        schema_module_path: self.schema_module_path,
                    },
                )
            },
            None => None,
        };
        Ok(
            PipelineStages {
                schema: SchemaConfig { schema_dir: self.schema_dir },
                seaorm: self.seaorm,
                markdown_io: self.markdown_io,
                dtos: self.dtos,
                store,
                api,
                servers: self.servers,
            },
        )
    }
}

/// The API stage's store type: the explicit one, else `Store` once a store
/// stage is registered, else none.
pub open spec fn resolved_store_type(store_enabled: bool, explicit: Option<Seq<char>>) -> Option<Seq<char>> {
    match explicit {
        Some(s) => Some(s),
        None => if store_enabled {
            Some(DEFAULT_STORE_TYPE@)
        } else {
            None
        },
    }
}

/// The stage configurations of a pipeline, in running order.
#[derive(Debug)]
pub struct PipelineStages {
    /// Schema parsing (always runs).
    pub schema: SchemaConfig,
    /// SeaORM persistence.
    pub seaorm: Option<SeaOrmConfig>,
    /// Markdown I/O.
    pub markdown_io: Option<MarkdownIoConfig>,
    /// Standalone DTOs.
    pub dtos: Option<DtoConfig>,
    /// The store.
    pub store: Option<StoreConfig>,
    /// The API layer.
    pub api: Option<ApiConfig>,
    /// Server transports.
    pub servers: Option<ServersStage>,
}

/// The servers configuration a pipeline runs with: the parsed entities are
/// forwarded to it unless it already names its own.
pub fn servers_config_with_entities(config: ServersConfig, entities: Vec<EntityDef>) -> (r: ServersConfig)
    ensures
        r == (ServersConfig { schema_entities: r.schema_entities, ..config }),
        config.schema_entities@.len() > 0 ==> r.schema_entities == config.schema_entities,
        config.schema_entities@.len() == 0 ==> r.schema_entities == entities,
{
    let mut c = config;
    if c.schema_entities.len() == 0 {
        c.schema_entities = entities;
    }
    c
}

} // verus!
