//! MCP servers as a tool provider: their configuration, the tools they
//! list, what a tool call returns, and which reply answers a request. The
//! child processes and their pipes are the caller's.
use vstd::prelude::*;
use crate::extensions::{prefixed, prefixed_name};
use crate::json::{clone_json, json_null};
use crate::registry::ToolProvider;
use crate::text::{decimal, owned, push_decimal, push_str};
use crate::tool::{ExecutionMode, ToolDefinition, ToolOrigin, ToolProviderScope};

verus! {

/// How to start an MCP server.
#[derive(Debug, Clone)]
pub struct McpServerConfig {
    pub name: String,
    pub command: String,
    pub args: Vec<String>,
}

/// A tool that an MCP server lists.
#[derive(Debug)]
pub struct McpToolDef {
    pub name: String,
    pub description: String,
    pub input_schema: serde_json::Value,
}

/// What an MCP tool call returned.
#[derive(Debug, Clone)]
pub struct McpToolResult {
    pub content: String,
    pub is_error: bool,
}

/// The strings among `items`, in order.
pub open spec fn present(items: Seq<Option<String>>) -> Seq<Seq<char>>
    decreases items.len(),
{
    if items.len() == 0 {
        Seq::empty()
    } else {
        present(items.drop_last()) + match items.last() {
            Some(s) => seq![s@],
            None => Seq::empty(),
        }
    }
}

fn present_strings(items: Vec<Option<String>>) -> (r: Vec<String>)
    ensures
        r@.map_values(|s: String| s@) == present(items@),
{
    let ghost iv = items@;
    let mut out: Vec<String> = Vec::new();
    let mut rest = items;
    let mut i: usize = 0;
    let n = rest.len();
    while rest.len() > 0
        invariant
            n == iv.len(),
            i + rest@.len() == n,
            rest@ == iv.subrange(i as int, n as int),
            out@.map_values(|s: String| s@) == present(iv.subrange(0, i as int)),
        decreases rest@.len(),
    {
        let item = rest.remove(0);
        let ghost prev = out@;
        match item {
            Some(s) => {
                out.push(s);
                assert(out@.map_values(|s: String| s@) =~= prev.map_values(|s: String| s@).push(iv[i as int]->0@));
            },
            None => {},
        }
        i = i + 1;
        assert(iv.subrange(0, i as int).drop_last() =~= iv.subrange(0, i - 1));
        assert(rest@ =~= iv.subrange(i as int, n as int));
    }
    assert(iv.subrange(0, n as int) =~= iv);
    out
}

/// The server configuration for one entry of the servers object: its
/// name, its `command` (empty when absent) and the strings among its
/// `args`.
pub fn server_config(name: String, command: Option<String>, args: Option<Vec<Option<String>>>) -> (r: McpServerConfig)
    ensures
        r.name == name,
        r.command@ == match command {
            Some(c) => c@,
            None => Seq::empty(),
        },
        r.args@.map_values(|s: String| s@) == match args {
            Some(a) => present(a@),
            None => Seq::empty(),
        },
{
    let command = match command {
        Some(c) => c,
        None => String::new(),
    };
    let args = match args {
        Some(a) => present_strings(a),
        None => {
            let v: Vec<String> = Vec::new();
            assert(v@.map_values(|s: String| s@) =~= Seq::<Seq<char>>::empty());
            v
        },
    };
    McpServerConfig { name, command, args }
}

/// What `server_config` makes of one entry's fields, as text.
pub open spec fn entry_server(f: (String, Option<String>, Option<Vec<Option<String>>>)) -> (Seq<char>, Seq<char>, Seq<Seq<char>>) {
    (
        f.0@,
        match f.1 {
            Some(c) => c@,
            None => Seq::empty(),
        },
        match f.2 {
            Some(a) => present(a@),
            None => Seq::empty(),
        },
    )
}

/// A server configuration, as text.
pub open spec fn config_view(c: McpServerConfig) -> (Seq<char>, Seq<char>, Seq<Seq<char>>) {
    (c.name@, c.command@, c.args@.map_values(|s: String| s@))
}

/// The servers for the entries of a servers object, given as each entry's
/// name, `command` field and `args` items, in order.
pub fn servers_from_fields(fields: Vec<(String, Option<String>, Option<Vec<Option<String>>>)>) -> (r: Vec<McpServerConfig>)
    ensures
        r@.map_values(|c: McpServerConfig| config_view(c)) == fields@.map_values(
            |f: (String, Option<String>, Option<Vec<Option<String>>>)| entry_server(f),
        ),
{
    let ghost fv = fields@;
    let mut out: Vec<McpServerConfig> = Vec::new();
    let mut rest = fields;
    let mut i: usize = 0;
    let n = rest.len();
    while rest.len() > 0
        invariant
            n == fv.len(),
            i + rest@.len() == n,
            rest@ == fv.subrange(i as int, n as int),
            out@.map_values(|c: McpServerConfig| config_view(c)) == fv.subrange(0, i as int).map_values(
                |f: (String, Option<String>, Option<Vec<Option<String>>>)| entry_server(f),
            ),
        decreases rest@.len(),
    {
        let f = rest.remove(0);
        assert(f == fv[i as int]);
        let ghost prev = out@;
        let ghost fe = entry_server(f);
        let (name, command, args) = f;
        let c = server_config(name, command, args);
        assert(config_view(c) == fe);
        out.push(c);
        proof {
            assert(fv.subrange(0, i + 1) =~= fv.subrange(0, i as int).push(fv[i as int]));
            assert(out@.map_values(|c: McpServerConfig| config_view(c)) =~= prev.map_values(
                |c: McpServerConfig| config_view(c),
            ).push(fe));
        }
        i = i + 1;
        assert(rest@ =~= fv.subrange(i as int, n as int));
        assert(out@.map_values(|c: McpServerConfig| config_view(c)) =~= fv.subrange(0, i as int).map_values(
            |f: (String, Option<String>, Option<Vec<Option<String>>>)| entry_server(f),
        ));
    }
    assert(fv.subrange(0, n as int) =~= fv);
    out
}

/// An MCP configuration object (`{"name": {"command": ..., "args": [...]}}`)
/// as the servers logic reads it: for each entry, in the object's order, its
/// name, its `command` when that is a string, and its `args` items (each
/// when it is a string) when that is an array. `entries` is `None` when the
/// JSON value is not an object.
pub struct ServersJson {
    pub entries: Option<Vec<(String, Option<String>, Option<Vec<Option<String>>>)>>,
}

/// The servers that a configuration object describes, as text.
pub open spec fn servers_json_view(json: ServersJson) -> Seq<(Seq<char>, Seq<char>, Seq<Seq<char>>)> {
    match json.entries {
        Some(f) => f@.map_values(|e: (String, Option<String>, Option<Vec<Option<String>>>)| entry_server(e)),
        None => Seq::empty(),
    }
}

/// The servers of an MCP configuration object, in the object's order; none
/// when it is not an object.
pub fn servers_from_json(json: ServersJson) -> (r: Vec<McpServerConfig>)
    ensures
        r@.map_values(|c: McpServerConfig| config_view(c)) == servers_json_view(json),
{
    let ghost j = json;
    match json.entries {
        Some(fields) => servers_from_fields(fields),
        None => {
            let v: Vec<McpServerConfig> = Vec::new();
            assert(v@.map_values(|c: McpServerConfig| config_view(c)) =~= servers_json_view(j));
            v
        },
    }
}

/// A listed tool, from the fields of its JSON entry: a missing name or
/// description reads as empty, a missing schema as `null`.
pub fn tool_def(name: Option<String>, description: Option<String>, input_schema: Option<serde_json::Value>) -> (r: McpToolDef)
    ensures
        r.name@ == match name {
            Some(n) => n@,
            None => Seq::empty(),
        },
        r.description@ == match description {
            Some(d) => d@,
            None => Seq::empty(),
        },
        r.input_schema == match input_schema {
            Some(s) => s,
            None => crate::json::json_value_of("null"@)->0,
        },
{
    McpToolDef {
        name: match name {
            Some(n) => n,
            None => String::new(),
        },
        description: match description {
            Some(d) => d,
            None => String::new(),
        },
        input_schema: match input_schema {
            Some(s) => s,
            None => json_null(),
        },
    }
}

/// `parts` joined with newlines.
pub open spec fn joined_lines(parts: Seq<Seq<char>>) -> Seq<char>
    decreases parts.len(),
{
    if parts.len() == 0 {
        Seq::empty()
    } else if parts.len() == 1 {
        parts[0]
    } else {
        joined_lines(parts.drop_last()) + "\n"@ + parts.last()
    }
}

/// A tool call's result: the texts of its content items joined with
/// newlines, and whether it is an error (not unless it says so).
pub fn tool_result(texts: Vec<Option<String>>, is_error: Option<bool>) -> (r: McpToolResult)
    ensures
        r.content@ == joined_lines(present(texts@)),
        r.is_error == (is_error == Some(true)),
{
    let parts = present_strings(texts);
    let ghost pv = parts@.map_values(|s: String| s@);
    let mut content = String::new();
    let mut i: usize = 0;
    while i < parts.len()
        invariant
            i <= parts@.len(),
            pv == parts@.map_values(|s: String| s@),
            content@ == joined_lines(pv.subrange(0, i as int)),
        decreases parts@.len() - i,
    {
        if i > 0 {
            push_str(&mut content, "\n");
        }
        push_str(&mut content, parts[i].as_str());
        i = i + 1;
        assert(pv.subrange(0, i as int).drop_last() =~= pv.subrange(0, i - 1));
        assert(pv.subrange(0, i as int).last() == pv[i - 1]);
        if i == 1 {
            assert(pv.subrange(0, 0) =~= Seq::<Seq<char>>::empty());
        }
    }
    assert(pv.subrange(0, i as int) =~= pv);
    McpToolResult { content, is_error: match is_error { Some(b) => b, None => false } }
}

/// What a line from the server means while waiting for the answer to a
/// request.
#[derive(Debug)]
pub enum ReplyStep {
    /// Not the answer: read on.
    Continue,
    /// The answer, and it is a success: its `result` is the reply.
    Answer,
    /// The answer, and it is an error: this message.
    Failed(String),
}

/// What a reply means for the request with id `want`: one with another id
/// (or none) is passed over; the one with this id answers it, with
/// `error_message` telling whether it carries an error (none: no error;
/// `Some(None)`: an error without a message).
pub fn reply_step(want: u64, reply_id: Option<u64>, error_message: Option<Option<String>>) -> (r: ReplyStep)
    ensures
        reply_id != Some(want) ==> r is Continue,
        reply_id == Some(want) ==> match error_message {
            None => r is Answer,
            Some(m) => r matches ReplyStep::Failed(t) && t@ == "MCP error (id="@ + decimal(want as nat) + "): "@ + match m {
                Some(s) => s@,
                None => "unknown"@,
            },
        },
{
    match reply_id {
        Some(id) => {
            if id != want {
                return ReplyStep::Continue;
            }
        },
        None => {
            return ReplyStep::Continue;
        },
    }
    match error_message {
        None => ReplyStep::Answer,
        Some(m) => {
            let mut t = owned("MCP error (id=");
            push_decimal(&mut t, want);
            push_str(&mut t, "): ");
            match m {
                Some(s) => push_str(&mut t, s.as_str()),
                None => push_str(&mut t, "unknown"),
            }
            ReplyStep::Failed(t)
        },
    }
}

/// A tool of a connected MCP server, as the registry holds it.
#[derive(Debug, Clone)]
pub struct McpToolRef {
    /// The server's position in the catalog.
    pub server: usize,
    /// The tool's own name on that server.
    pub tool_name: String,
}

/// The connected servers with the tools each listed.
pub struct McpToolPack {
    pub servers: Vec<(McpServerConfig, Vec<McpToolDef>)>,
}

/// The servers that connected and listed their tools, in order, each with
/// those tools.
pub open spec fn connected(outcomes: Seq<(McpServerConfig, Option<Vec<McpToolDef>>)>) -> Seq<(McpServerConfig, Vec<McpToolDef>)>
    decreases outcomes.len(),
{
    if outcomes.len() == 0 {
        Seq::empty()
    } else {
        connected(outcomes.drop_last()) + match outcomes.last().1 {
            Some(t) => seq![(outcomes.last().0, t)],
            None => Seq::empty(),
        }
    }
}

impl McpToolPack {
    /// The catalog of the configured servers, given what starting each one
    /// gave: its listed tools, or `None` where it could not be started or
    /// listed. Those servers are left out.
    pub fn new(outcomes: Vec<(McpServerConfig, Option<Vec<McpToolDef>>)>) -> (r: McpToolPack)
        ensures
            r.servers@ == connected(outcomes@),
    {
        let ghost ov = outcomes@;
        let mut servers: Vec<(McpServerConfig, Vec<McpToolDef>)> = Vec::new();
        let mut rest = outcomes;
        let mut i: usize = 0;
        let n = rest.len();
        while rest.len() > 0
            invariant
                n == ov.len(),
                i + rest@.len() == n,
                rest@ == ov.subrange(i as int, n as int),
                servers@ == connected(ov.subrange(0, i as int)),
            decreases rest@.len(),
        {
            let (config, listed) = rest.remove(0);
            let ghost prev = servers@;
            match listed {
                Some(t) => {
                    servers.push((config, t));
                },
                None => {},
            }
            i = i + 1;
            assert(ov.subrange(0, i as int).drop_last() =~= ov.subrange(0, i - 1));
            assert(servers@ =~= connected(ov.subrange(0, i as int)));
            assert(rest@ =~= ov.subrange(i as int, n as int));
        }
        assert(ov.subrange(0, n as int) =~= ov);
        McpToolPack { servers }
    }
}

/// The definitions a catalog offers: each server's tools in order, named
/// `server__tool`, with the tool's description and input schema.
pub open spec fn catalog_offers(servers: Seq<(McpServerConfig, Vec<McpToolDef>)>, tools: Seq<(ToolDefinition, McpToolRef)>) -> bool
    decreases servers.len(),
{
    if servers.len() == 0 {
        tools.len() == 0
    } else {
        let last = servers.last();
        let n = last.1@.len();
        &&& tools.len() >= n
        &&& catalog_offers(servers.drop_last(), tools.subrange(0, tools.len() - n))
        &&& forall|k: int| 0 <= k < n ==> {
            let t = #[trigger] tools[tools.len() - n + k];
            &&& t.0.name@ == prefixed(last.0.name@, last.1@[k].name@)
            &&& t.0.description@ == last.1@[k].description@
            &&& t.0.parameters == last.1@[k].input_schema
            &&& t.0.origin == ToolOrigin::Subprocess
            &&& t.0.execution_mode == ExecutionMode::Sequential
            &&& t.1.server == servers.len() - 1
            &&& t.1.tool_name@ == last.1@[k].name@
        }
    }
}

impl ToolProvider<McpToolRef> for McpToolPack {
    open spec fn offers(&self, dir: Seq<char>, tools: Seq<(ToolDefinition, McpToolRef)>) -> bool {
        catalog_offers(self.servers@, tools)
    }

    /// Every listed tool of every server, in order, named `server__tool`.
    fn tools(&self, scope: &ToolProviderScope) -> (r: Vec<(ToolDefinition, McpToolRef)>) {
        let mut out: Vec<(ToolDefinition, McpToolRef)> = Vec::new();
        let mut s: usize = 0;
        assert(catalog_offers(self.servers@.subrange(0, 0), out@));
        while s < self.servers.len()
            invariant
                s <= self.servers@.len(),
                catalog_offers(self.servers@.subrange(0, s as int), out@),
            decreases self.servers@.len() - s,
        {
            let server_name = self.servers[s].0.name.as_str();
            let defs = &self.servers[s].1;
            let ghost base = out@;
            let mut k: usize = 0;
            while k < defs.len()
                invariant
                    k <= defs@.len(),
                    s < self.servers@.len(),
                    defs@ == self.servers@[s as int].1@,
                    server_name@ == self.servers@[s as int].0.name@,
                    out@.len() == base.len() + k,
                    out@.subrange(0, base.len() as int) == base,
                    forall|j: int| 0 <= j < k ==> {
                        let t = #[trigger] out@[base.len() + j];
                        &&& t.0.name@ == prefixed(server_name@, defs@[j].name@)
                        &&& t.0.description@ == defs@[j].description@
                        &&& t.0.parameters == defs@[j].input_schema
                        &&& t.0.origin == ToolOrigin::Subprocess
                        &&& t.0.execution_mode == ExecutionMode::Sequential
                        &&& t.1.server == s
                        &&& t.1.tool_name@ == defs@[j].name@
                    },
                decreases defs@.len() - k,
            {
                let d = &defs[k];
                let def = ToolDefinition {
                    name: prefixed_name(server_name, d.name.as_str()),
                    description: d.description.clone(),
                    parameters: clone_json(&d.input_schema),
                    origin: ToolOrigin::Subprocess,
                    execution_mode: ExecutionMode::Sequential,
                };
                let ghost prev = out@;
                out.push((def, McpToolRef { server: s, tool_name: d.name.clone() }));
                assert(out@.subrange(0, base.len() as int) =~= prev.subrange(0, base.len() as int));
                k = k + 1;
            }
            proof {
                let ss = self.servers@.subrange(0, s + 1);
                assert(ss.drop_last() =~= self.servers@.subrange(0, s as int));
                assert(ss.last() == self.servers@[s as int]);
                assert(out@.subrange(0, out@.len() - defs@.len()) =~= base);
                assert(ss.len() - 1 == s);
            }
            s = s + 1;
        }
        assert(self.servers@.subrange(0, s as int) =~= self.servers@);
        out
    }
}

/// The error of a failed MCP tool call.
pub fn call_error(err: &str) -> (r: crate::tool::ToolError)
    ensures
        r matches crate::tool::ToolError::Execution(m) && m@ == "MCP call: "@ + err@,
{
    let mut m = owned("MCP call: ");
    push_str(&mut m, err);
    crate::tool::ToolError::Execution(m)
}

/// The result of an MCP tool call as a tool result.
pub fn call_result(r: McpToolResult) -> (t: crate::tool::ToolResult)
    ensures
        t.content == r.content,
        t.is_error == r.is_error,
        t.metadata is None,
{
    crate::tool::ToolResult { content: r.content, is_error: r.is_error, metadata: None }
}

} // verus!
