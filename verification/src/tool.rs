//! Tool metadata, results and errors, and the registry that finds tools by
//! name.
use vstd::prelude::*;
use crate::text::{decimal, push_decimal, push_str, owned};

verus! {

/// Where a tool comes from.
#[derive(Debug, Clone, Copy, PartialEq, Eq, Structural)]
pub enum ToolOrigin {
    BuiltIn,
    Extension,
    Wasm,
    Subprocess,
}

/// Whether a tool may run alongside others.
#[derive(Debug, Clone, Copy, PartialEq, Eq, Structural)]
pub enum ExecutionMode {
    Sequential,
    Concurrent,
}

/// What a model is told about a tool.
#[derive(Debug)]
pub struct ToolDefinition {
    pub name: String,
    pub description: String,
    /// The JSON schema of the arguments.
    pub parameters: serde_json::Value,
    pub origin: ToolOrigin,
    pub execution_mode: ExecutionMode,
}

impl ToolDefinition {
    /// A copy.
    pub fn duplicate(&self) -> (r: ToolDefinition)
        ensures
            r.name == self.name,
            r.description == self.description,
            r.parameters == self.parameters,
            r.origin == self.origin,
            r.execution_mode == self.execution_mode,
    {
        ToolDefinition {
            name: self.name.clone(),
            description: self.description.clone(),
            parameters: crate::json::clone_json(&self.parameters),
            origin: self.origin,
            execution_mode: self.execution_mode,
        }
    }
}

/// Where and for whom a tool runs.
#[derive(Debug)]
pub struct ToolExecutionContext {
    pub session_id: String,
    pub working_dir: String,
}

/// The scope in which providers are asked for their tools.
#[derive(Debug, Clone)]
pub struct ToolProviderScope<'a> {
    pub working_dir: &'a str,
}

impl<'a> ToolProviderScope<'a> {
    /// A scope for the given working directory.
    pub fn new(working_dir: &'a str) -> (r: Self)
        ensures
            r.working_dir@ == working_dir@,
    {
        ToolProviderScope { working_dir }
    }
}

/// The outcome of running a tool.
#[derive(Debug)]
pub struct ToolResult {
    pub content: String,
    pub is_error: bool,
    pub metadata: Option<serde_json::Value>,
}

impl ToolResult {
    /// A successful result with the given text.
    pub fn text(content: String) -> (r: ToolResult)
        ensures
            r.content == content,
            !r.is_error,
            r.metadata is None,
    {
        ToolResult { content, is_error: false, metadata: None }
    }

    /// A failed result with the given text.
    pub fn error(content: String) -> (r: ToolResult)
        ensures
            r.content == content,
            r.is_error,
            r.metadata is None,
    {
        ToolResult { content, is_error: true, metadata: None }
    }
}

/// Why a tool could not run.
#[derive(Debug)]
pub enum ToolError {
    Execution(String),
    NotFound(String),
    Timeout(u64),
    PermissionDenied(String),
}

/// How a tool error reads.
pub open spec fn tool_error_text(e: ToolError) -> Seq<char> {
    match e {
        ToolError::Execution(s) => "Tool execution failed: "@ + s@,
        ToolError::NotFound(s) => "Tool not found: "@ + s@,
        ToolError::Timeout(ms) => "Tool timed out after "@ + decimal(ms as nat) + "ms"@,
        ToolError::PermissionDenied(s) => "Permission denied: "@ + s@,
    }
}

impl ToolError {
    /// How the error reads.
    pub fn message(&self) -> (r: String)
        ensures
            r@ == tool_error_text(*self),
    {
        match self {
            ToolError::Execution(s) => {
                let mut out = owned("Tool execution failed: ");
                push_str(&mut out, s.as_str());
                out
            },
            ToolError::NotFound(s) => {
                let mut out = owned("Tool not found: ");
                push_str(&mut out, s.as_str());
                out
            },
            ToolError::Timeout(ms) => {
                let mut out = owned("Tool timed out after ");
                push_decimal(&mut out, *ms);
                push_str(&mut out, "ms");
                out
            },
            ToolError::PermissionDenied(s) => {
                let mut out = owned("Permission denied: ");
                push_str(&mut out, s.as_str());
                out
            },
        }
    }
}

} // verus!
