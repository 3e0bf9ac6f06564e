//! Typed intermediate representations handed from one generator to the next.

use vstd::prelude::*;

verus! {

/// What an API function does, as the transports route it.
#[derive(Debug, Clone, PartialEq, Eq)]
pub enum OpKind {
    List,
    GetById,
    Create,
    Update,
    Delete,
    /// `list_{children}(parent_id)`.
    JunctionList { child_segment: String },
    /// `add_{child}(parent_id, child_id)`.
    JunctionAdd { child_segment: String },
    /// `remove_{child}(parent_id, child_id)`.
    JunctionRemove { child_segment: String },
    /// A custom read.
    CustomGet,
    /// A custom write, or a read that needs a body.
    CustomPost,
    /// A `broadcast::Receiver` event stream.
    EventStream,
}

/// [`OpKind`] with its URL segments as character sequences.
pub enum OpKindView {
    List,
    GetById,
    Create,
    Update,
    Delete,
    JunctionList(Seq<char>),
    JunctionAdd(Seq<char>),
    JunctionRemove(Seq<char>),
    CustomGet,
    CustomPost,
    EventStream,
}

impl View for OpKind {
    type V = OpKindView;

    open spec fn view(&self) -> OpKindView {
        match self {
            OpKind::List => OpKindView::List,
            OpKind::GetById => OpKindView::GetById,
            OpKind::Create => OpKindView::Create,
            OpKind::Update => OpKindView::Update,
            OpKind::Delete => OpKindView::Delete,
            OpKind::JunctionList { child_segment } => OpKindView::JunctionList(child_segment@),
            OpKind::JunctionAdd { child_segment } => OpKindView::JunctionAdd(child_segment@),
            OpKind::JunctionRemove { child_segment } => OpKindView::JunctionRemove(child_segment@),
            OpKind::CustomGet => OpKindView::CustomGet,
            OpKind::CustomPost => OpKindView::CustomPost,
            OpKind::EventStream => OpKindView::EventStream,
        }
    }
}

/// Which state a module's functions take first.
#[derive(Debug, Clone, Copy, PartialEq, Eq, Structural)]
pub enum StateKind {
    /// The store (entity-scoped).
    Store,
    /// The application state.
    AppState,
}

/// A parameter of an API function.
#[derive(Debug, Clone, PartialEq, Eq)]
pub struct ParamMeta {
    /// Parameter name.
    pub name: String,
    /// Parameter type as written.
    pub param_type: String,
}

/// Where an API function comes from.
#[derive(Debug, Clone, PartialEq, Eq)]
pub enum Source {
    /// Generated CRUD forwarding.
    Generated {
        /// Module path of the generated function.
        mod_path: String,
    },
    /// A hand-written function found by scanning.
    Scanned {
        /// Module path of the scanned function.
        mod_path: String,
        /// The file it was found in.
        file_path: String,
    },
}

/// One API function of the merged API surface.
#[derive(Debug, Clone, PartialEq, Eq)]
pub struct ApiFnMeta {
    /// Function name.
    pub name: String,
    /// Doc comment.
    pub doc: String,
    /// Parameters after the state parameter.
    pub params: Vec<ParamMeta>,
    /// Return type (the `Ok` type).
    pub return_type: String,
    /// Origin.
    pub source: Source,
    /// Classified operation.
    pub classified_op: OpKind,
}

/// One module of the merged API surface.
#[derive(Debug, Clone, PartialEq, Eq)]
pub struct ApiModule {
    /// Module name (snake_case).
    pub name: String,
    /// Functions in order.
    pub fns: Vec<ApiFnMeta>,
    /// The state the functions take.
    pub state_type: StateKind,
}

/// The API layer handed to the server generators.
#[derive(Debug, Clone, PartialEq, Eq)]
pub struct ApiOutput {
    /// Modules in order.
    pub modules: Vec<ApiModule>,
}

/// One generated HTTP route.
#[derive(Debug, Clone, PartialEq, Eq)]
pub struct HttpRouteMeta {
    /// HTTP method.
    pub method: String,
    /// Route path.
    pub path: String,
    /// Handler function name.
    pub handler_name: String,
    /// API module name.
    pub module_name: String,
}

/// One generated IPC command.
#[derive(Debug, Clone, PartialEq, Eq)]
pub struct IpcCommandMeta {
    /// Command name.
    pub command_name: String,
    /// Parameters.
    pub params: Vec<ParamMeta>,
    /// Return type.
    pub return_type: String,
}

/// One generated MCP tool.
#[derive(Debug, Clone, PartialEq, Eq)]
pub struct McpToolMeta {
    /// Tool name.
    pub tool_name: String,
    /// Description.
    pub description: String,
    /// Parameters.
    pub params: Vec<ParamMeta>,
}

/// What the server generators produced.
#[derive(Debug, Clone, PartialEq, Eq)]
pub struct ServersOutput {
    /// HTTP routes.
    pub http_routes: Vec<HttpRouteMeta>,
    /// IPC commands.
    pub ipc_commands: Vec<IpcCommandMeta>,
    /// MCP tools.
    pub mcp_tools: Vec<McpToolMeta>,
}

/// How markdown records get their ids.
#[derive(Debug, Clone, PartialEq, Eq)]
pub enum IdStrategy {
    /// The caller provides the id.
    Provided,
    /// A random UUID.
    Uuid,
    /// A slug derived from the named `String` field.
    SlugFromField(String),
}

/// One entity's place in the markdown vault.
#[derive(Debug, Clone, PartialEq, Eq)]
pub struct MarkdownEntityMeta {
    /// Entity name.
    pub entity_name: String,
    /// Directory segment of its records.
    pub dir_segment: String,
}

/// What the markdown I/O generator produced, for the store to build on.
#[derive(Debug, Clone, PartialEq, Eq)]
pub struct MarkdownIoOutput {
    /// Module path of the generated frontmatter types.
    pub mod_path: String,
    /// How records get their ids.
    pub id_strategy: IdStrategy,
    /// Per-entity vault layout.
    pub entities: Vec<MarkdownEntityMeta>,
}

} // verus!
