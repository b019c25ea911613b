//! What extensions are made of: the host events they hook, the capabilities
//! they ask for, hook modes and results, and their errors.
use vstd::prelude::*;
use crate::text::{decimal, owned, push_decimal, push_str};

verus! {

/// A host event that an extension can subscribe to.
#[derive(Debug, Clone, Copy, PartialEq, Eq, Hash)]
pub enum ExtensionEvent {
    /// The host has started.
    HostReady,
    /// The host is about to shut down.
    HostShutdown,
    /// A session was created.
    SessionCreated,
    /// A session was destroyed.
    SessionDestroyed,
    /// Messages are about to go to the model.
    BeforeModelCall,
    /// The model's reply came back.
    AfterModelCall,
    /// A tool is about to run.
    BeforeToolExecute,
    /// A tool has run.
    AfterToolExecute,
    /// The model's text went to the user.
    MessageSent,
    /// A custom event emitted by another extension.
    Custom(&'static str),
}

/// A host capability that an extension can ask for.
#[derive(Debug, Clone, Copy, PartialEq, Eq, Structural, Hash)]
pub enum ExtensionCapability {
    /// Namespaced persistent state of a session.
    SessionState,
    /// Creating sub-sessions and submitting turns.
    SessionControl,
    /// The host's main model.
    MainModel,
    /// The host's small model.
    SmallModel,
    /// Read-only queries of past sessions.
    SessionHistory,
    /// Emitting declared extension events.
    EmitEvents,
    /// Reading the workspace or extension directories.
    WorkspaceRead,
    /// Starting child processes.
    ProcessSpawn,
    /// Making network requests.
    NetworkClient,
}

/// Why an extension is stopped.
#[derive(Debug, Clone, Copy, PartialEq, Eq, Structural)]
pub enum StopReason {
    Reload,
    Disabled,
    Shutdown,
}

/// How a hook runs.
#[derive(Debug, Clone, Copy, PartialEq, Eq, Structural, Hash)]
pub enum HookMode {
    /// Runs in line and can block the operation.
    Blocking,
    /// Runs detached.
    NonBlocking,
    /// Runs, but its result is advice only.
    Advisory,
}

/// What a hook decides.
#[derive(Debug, Clone)]
pub enum HookResult {
    Allow,
    Block { reason: String },
}

/// What a lifecycle hook is told.
#[derive(Debug, Clone)]
pub struct LifecycleContext {
    pub session_id: String,
    pub working_dir: String,
}

/// An extension's failure.
#[derive(Debug)]
pub enum ExtensionError {
    NotFound(String),
    Timeout(u64),
    Blocked { reason: String },
    Internal(String),
}

/// How an extension error reads.
pub open spec fn extension_error_text(e: ExtensionError) -> Seq<char> {
    match e {
        ExtensionError::NotFound(s) => "Extension not found: "@ + s@,
        ExtensionError::Timeout(ms) => "Hook timed out after "@ + decimal(ms as nat) + "ms"@,
        ExtensionError::Blocked { reason } => "Blocked by hook: "@ + reason@,
        ExtensionError::Internal(s) => "Extension error: "@ + s@,
    }
}

impl ExtensionError {
    /// How the error reads.
    pub fn message(&self) -> (r: String)
        ensures
            r@ == extension_error_text(*self),
    {
        match self {
            ExtensionError::NotFound(s) => {
                let mut out = owned("Extension not found: ");
                push_str(&mut out, s.as_str());
                out
            },
            ExtensionError::Timeout(ms) => {
                let mut out = owned("Hook timed out after ");
                push_decimal(&mut out, *ms);
                push_str(&mut out, "ms");
                out
            },
            ExtensionError::Blocked { reason } => {
                let mut out = owned("Blocked by hook: ");
                push_str(&mut out, reason.as_str());
                out
            },
            ExtensionError::Internal(s) => {
                let mut out = owned("Extension error: ");
                push_str(&mut out, s.as_str());
                out
            },
        }
    }
}

/// A handler of lifecycle events, implemented by extensions.
pub trait LifecycleHandler {
    fn handle(&self, ctx: LifecycleContext) -> Result<HookResult, ExtensionError>;
}

/// How an extension is built and loaded.
#[derive(Debug, Clone, Copy, PartialEq, Eq, Structural)]
pub enum ExtensionKind {
    /// Compiled into the host.
    BuiltIn,
    /// A WebAssembly component.
    Wasm,
    /// A child process spoken to over stdio.
    Subprocess,
}

/// An extension's manifest: who it is, how it is loaded, and from where.
#[derive(Debug)]
pub struct Manifest {
    pub id: String,
    pub name: String,
    pub version: String,
    pub description: String,
    pub kind: ExtensionKind,
    /// The file or command the extension is loaded from.
    pub entry: String,
    /// The extension's own settings.
    pub config: serde_json::Value,
}

/// Loads the extension a manifest describes.
pub trait ExtensionLoader<E> {
    fn load_extension(&self, manifest: &Manifest) -> E;
}

/// A successful tool result with this text.
pub fn text_result(content: String) -> (r: crate::tool::ToolResult)
    ensures
        r.content == content,
        !r.is_error,
        r.metadata is None,
{
    crate::tool::ToolResult::text(content)
}

/// A failed tool result with this text.
pub fn error_result(content: String) -> (r: crate::tool::ToolResult)
    ensures
        r.content == content,
        r.is_error,
        r.metadata is None,
{
    crate::tool::ToolResult::error(content)
}

} // verus!
