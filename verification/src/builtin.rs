//! The built-in tools: files, shell and web, offered by `FsToolProvider`.
use vstd::prelude::*;
use crate::registry::ToolProvider;
use crate::text::owned;
use crate::tool::{ExecutionMode, ToolDefinition, ToolOrigin, ToolProviderScope};

verus! {

/// A built-in tool.
#[derive(Debug, Clone, Copy, PartialEq, Eq, Structural)]
pub enum BuiltinTool {
    FsRead,
    FsWrite,
    FsLs,
    FsFind,
    FsGrep,
    FsInfo,
    ShellExec,
    WebFetch,
    FsReadRange,
    FsEdit,
}

/// The built-in tools in the order they are offered.
pub open spec fn builtin_order() -> Seq<BuiltinTool> {
    seq![
        BuiltinTool::FsRead,
        BuiltinTool::FsWrite,
        BuiltinTool::FsLs,
        BuiltinTool::FsFind,
        BuiltinTool::FsGrep,
        BuiltinTool::FsInfo,
        BuiltinTool::ShellExec,
        BuiltinTool::WebFetch,
        BuiltinTool::FsReadRange,
        BuiltinTool::FsEdit,
    ]
}

/// A built-in tool's name.
pub open spec fn builtin_name(t: BuiltinTool) -> Seq<char> {
    match t {
        BuiltinTool::FsRead => "fs_read"@,
        BuiltinTool::FsWrite => "fs_write"@,
        BuiltinTool::FsLs => "fs_ls"@,
        BuiltinTool::FsFind => "fs_find"@,
        BuiltinTool::FsGrep => "fs_grep"@,
        BuiltinTool::FsInfo => "fs_info"@,
        BuiltinTool::ShellExec => "shell_exec"@,
        BuiltinTool::WebFetch => "web_fetch"@,
        BuiltinTool::FsReadRange => "fs_read_range"@,
        BuiltinTool::FsEdit => "fs_edit"@,
    }
}

/// A built-in tool's description.
pub open spec fn builtin_description(t: BuiltinTool) -> Seq<char> {
    match t {
        BuiltinTool::FsRead => "Read file content"@,
        BuiltinTool::FsWrite => "Write content to file"@,
        BuiltinTool::FsLs => "List directory contents"@,
        BuiltinTool::FsFind => "Find files matching a glob pattern"@,
        BuiltinTool::FsGrep => "Search file contents with regex"@,
        BuiltinTool::FsInfo => "Get file/directory metadata"@,
        BuiltinTool::ShellExec => "Execute a shell command and return stdout + stderr output"@,
        BuiltinTool::WebFetch => "Fetch a URL and return its content as text (markdown preferred, HTML otherwise)"@,
        BuiltinTool::FsReadRange => "Read a range of lines from a file (1-indexed)"@,
        BuiltinTool::FsEdit => "Search and replace text in a file. Finds the exact string `old` and replaces it with `new`. Only replaces the first occurrence — ensure `old` is unique in the file for predictable results."@,
    }
}

/// The JSON schema of a built-in tool's arguments, as text.
pub open spec fn builtin_schema(t: BuiltinTool) -> Seq<char> {
    match t {
        BuiltinTool::FsRead => "{\"type\":\"object\",\"properties\":{\"path\":{\"type\":\"string\",\"description\":\"Path to file\"}},\"required\":[\"path\"]}"@,
        BuiltinTool::FsWrite => "{\"type\":\"object\",\"properties\":{\"path\":{\"type\":\"string\",\"description\":\"Path to file\"},\"content\":{\"type\":\"string\",\"description\":\"Content to write\"},\"append\":{\"type\":\"boolean\",\"description\":\"Append instead of overwrite\"}},\"required\":[\"path\",\"content\"]}"@,
        BuiltinTool::FsLs => "{\"type\":\"object\",\"properties\":{\"path\":{\"type\":\"string\",\"description\":\"Directory path\"},\"recursive\":{\"type\":\"boolean\",\"description\":\"List recursively\"}},\"required\":[]}"@,
        BuiltinTool::FsFind => "{\"type\":\"object\",\"properties\":{\"pattern\":{\"type\":\"string\",\"description\":\"Glob pattern (e.g. **/*.rs)\"},\"path\":{\"type\":\"string\",\"description\":\"Root directory\"},\"max_depth\":{\"type\":\"integer\",\"description\":\"Maximum search depth\"}},\"required\":[\"pattern\"]}"@,
        BuiltinTool::FsGrep => "{\"type\":\"object\",\"properties\":{\"pattern\":{\"type\":\"string\",\"description\":\"Regex pattern\"},\"path\":{\"type\":\"string\",\"description\":\"Root directory\"},\"include\":{\"type\":\"string\",\"description\":\"Optional glob filter\"}},\"required\":[\"pattern\"]}"@,
        BuiltinTool::FsInfo => "{\"type\":\"object\",\"properties\":{\"path\":{\"type\":\"string\",\"description\":\"Path to file or directory\"}},\"required\":[\"path\"]}"@,
        BuiltinTool::ShellExec => "{\"type\":\"object\",\"properties\":{\"command\":{\"type\":\"string\",\"description\":\"Shell command to execute\"},\"timeout_secs\":{\"type\":\"integer\",\"description\":\"Timeout in seconds (default 30)\"}},\"required\":[\"command\"]}"@,
        BuiltinTool::WebFetch => "{\"type\":\"object\",\"properties\":{\"url\":{\"type\":\"string\",\"description\":\"URL to fetch\"},\"timeout_secs\":{\"type\":\"integer\",\"description\":\"Timeout in seconds (default 15)\"}},\"required\":[\"url\"]}"@,
        BuiltinTool::FsReadRange => "{\"type\":\"object\",\"properties\":{\"path\":{\"type\":\"string\",\"description\":\"Path to file\"},\"start\":{\"type\":\"integer\",\"description\":\"Start line (1-indexed, default 1)\"},\"end\":{\"type\":\"integer\",\"description\":\"End line (inclusive, default end of file)\"}},\"required\":[\"path\"]}"@,
        BuiltinTool::FsEdit => "{\"type\":\"object\",\"properties\":{\"path\":{\"type\":\"string\",\"description\":\"Path to file\"},\"old\":{\"type\":\"string\",\"description\":\"Exact string to find (must be unique)\"},\"new\":{\"type\":\"string\",\"description\":\"Replacement string\"}},\"required\":[\"path\",\"old\",\"new\"]}"@,
    }
}

/// The definition offered for a built-in tool: its name, description,
/// argument schema (its schema text, parsed) and kind.
pub open spec fn describes(d: ToolDefinition, t: BuiltinTool) -> bool {
    &&& d.name@ == builtin_name(t)
    &&& d.description@ == builtin_description(t)
    &&& d.parameters == crate::json::json_or_null(builtin_schema(t))
    &&& d.origin == ToolOrigin::BuiltIn
    &&& d.execution_mode == ExecutionMode::Sequential
}

impl BuiltinTool {
    /// The tool's name.
    pub fn name(&self) -> (r: &'static str)
        ensures
            r@ == builtin_name(*self),
    {
        match self {
            BuiltinTool::FsRead => "fs_read",
            BuiltinTool::FsWrite => "fs_write",
            BuiltinTool::FsLs => "fs_ls",
            BuiltinTool::FsFind => "fs_find",
            BuiltinTool::FsGrep => "fs_grep",
            BuiltinTool::FsInfo => "fs_info",
            BuiltinTool::ShellExec => "shell_exec",
            BuiltinTool::WebFetch => "web_fetch",
            BuiltinTool::FsReadRange => "fs_read_range",
            BuiltinTool::FsEdit => "fs_edit",
        }
    }

    fn description(&self) -> (r: &'static str)
        ensures
            r@ == builtin_description(*self),
    {
        match self {
            BuiltinTool::FsRead => "Read file content",
            BuiltinTool::FsWrite => "Write content to file",
            BuiltinTool::FsLs => "List directory contents",
            BuiltinTool::FsFind => "Find files matching a glob pattern",
            BuiltinTool::FsGrep => "Search file contents with regex",
            BuiltinTool::FsInfo => "Get file/directory metadata",
            BuiltinTool::ShellExec => "Execute a shell command and return stdout + stderr output",
            BuiltinTool::WebFetch => "Fetch a URL and return its content as text (markdown preferred, HTML otherwise)",
            BuiltinTool::FsReadRange => "Read a range of lines from a file (1-indexed)",
            BuiltinTool::FsEdit => "Search and replace text in a file. Finds the exact string `old` and replaces it with `new`. Only replaces the first occurrence — ensure `old` is unique in the file for predictable results.",
        }
    }

    /// The JSON schema of the tool's arguments, as text.
    fn schema(&self) -> (r: &'static str)
        ensures
            r@ == builtin_schema(*self),
    {
        match self {
            BuiltinTool::FsRead => "{\"type\":\"object\",\"properties\":{\"path\":{\"type\":\"string\",\"description\":\"Path to file\"}},\"required\":[\"path\"]}",
            BuiltinTool::FsWrite => "{\"type\":\"object\",\"properties\":{\"path\":{\"type\":\"string\",\"description\":\"Path to file\"},\"content\":{\"type\":\"string\",\"description\":\"Content to write\"},\"append\":{\"type\":\"boolean\",\"description\":\"Append instead of overwrite\"}},\"required\":[\"path\",\"content\"]}",
            BuiltinTool::FsLs => "{\"type\":\"object\",\"properties\":{\"path\":{\"type\":\"string\",\"description\":\"Directory path\"},\"recursive\":{\"type\":\"boolean\",\"description\":\"List recursively\"}},\"required\":[]}",
            BuiltinTool::FsFind => "{\"type\":\"object\",\"properties\":{\"pattern\":{\"type\":\"string\",\"description\":\"Glob pattern (e.g. **/*.rs)\"},\"path\":{\"type\":\"string\",\"description\":\"Root directory\"},\"max_depth\":{\"type\":\"integer\",\"description\":\"Maximum search depth\"}},\"required\":[\"pattern\"]}",
            BuiltinTool::FsGrep => "{\"type\":\"object\",\"properties\":{\"pattern\":{\"type\":\"string\",\"description\":\"Regex pattern\"},\"path\":{\"type\":\"string\",\"description\":\"Root directory\"},\"include\":{\"type\":\"string\",\"description\":\"Optional glob filter\"}},\"required\":[\"pattern\"]}",
            BuiltinTool::FsInfo => "{\"type\":\"object\",\"properties\":{\"path\":{\"type\":\"string\",\"description\":\"Path to file or directory\"}},\"required\":[\"path\"]}",
            BuiltinTool::ShellExec => "{\"type\":\"object\",\"properties\":{\"command\":{\"type\":\"string\",\"description\":\"Shell command to execute\"},\"timeout_secs\":{\"type\":\"integer\",\"description\":\"Timeout in seconds (default 30)\"}},\"required\":[\"command\"]}",
            BuiltinTool::WebFetch => "{\"type\":\"object\",\"properties\":{\"url\":{\"type\":\"string\",\"description\":\"URL to fetch\"},\"timeout_secs\":{\"type\":\"integer\",\"description\":\"Timeout in seconds (default 15)\"}},\"required\":[\"url\"]}",
            BuiltinTool::FsReadRange => "{\"type\":\"object\",\"properties\":{\"path\":{\"type\":\"string\",\"description\":\"Path to file\"},\"start\":{\"type\":\"integer\",\"description\":\"Start line (1-indexed, default 1)\"},\"end\":{\"type\":\"integer\",\"description\":\"End line (inclusive, default end of file)\"}},\"required\":[\"path\"]}",
            BuiltinTool::FsEdit => "{\"type\":\"object\",\"properties\":{\"path\":{\"type\":\"string\",\"description\":\"Path to file\"},\"old\":{\"type\":\"string\",\"description\":\"Exact string to find (must be unique)\"},\"new\":{\"type\":\"string\",\"description\":\"Replacement string\"}},\"required\":[\"path\",\"old\",\"new\"]}",
        }
    }

    /// The tool's definition.
    pub fn definition(&self) -> (r: ToolDefinition)
        ensures
            describes(r, *self),
    {
        ToolDefinition {
            name: owned(self.name()),
            description: owned(self.description()),
            parameters: crate::json::parse_json_or_null(self.schema()),
            origin: ToolOrigin::BuiltIn,
            execution_mode: ExecutionMode::Sequential,
        }
    }
}

/// The provider of the built-in tools.
#[derive(Debug, Clone, Copy)]
pub struct FsToolProvider;

impl ToolProvider<BuiltinTool> for FsToolProvider {
    open spec fn offers(&self, dir: Seq<char>, tools: Seq<(ToolDefinition, BuiltinTool)>) -> bool {
        &&& tools.len() == builtin_order().len()
        &&& forall|i: int| 0 <= i < tools.len() ==> (#[trigger] tools[i]).1 == builtin_order()[i] && describes(tools[i].0, tools[i].1)
    }

    /// The ten built-in tools, in a fixed order, with their definitions.
    fn tools(&self, scope: &ToolProviderScope) -> (r: Vec<(ToolDefinition, BuiltinTool)>) {
        let order = [
            BuiltinTool::FsRead,
            BuiltinTool::FsWrite,
            BuiltinTool::FsLs,
            BuiltinTool::FsFind,
            BuiltinTool::FsGrep,
            BuiltinTool::FsInfo,
            BuiltinTool::ShellExec,
            BuiltinTool::WebFetch,
            BuiltinTool::FsReadRange,
            BuiltinTool::FsEdit,
        ];
        assert(order@ =~= builtin_order());
        let mut out: Vec<(ToolDefinition, BuiltinTool)> = Vec::new();
        let mut i: usize = 0;
        while i < 10
            invariant
                i <= 10,
                order@ == builtin_order(),
                out@.len() == i,
                forall|k: int| 0 <= k < i ==> (#[trigger] out@[k]).1 == builtin_order()[k] && describes(out@[k].0, out@[k].1),
            decreases 10 - i,
        {
            let t = order[i];
            out.push((t.definition(), t));
            i = i + 1;
        }
        out
    }
}

} // verus!
