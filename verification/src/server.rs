//! What the HTTP server answers, apart from the chat stream: health, the
//! tool list, tool calls and saved sessions.
use vstd::prelude::*;
use crate::config::ResolvedConfig;
use crate::storage::SessionFile;
use crate::text::{decimal, owned, push_decimal, push_str};
use crate::tool::{ToolDefinition, ToolError, tool_error_text};

verus! {

/// The server's health.
#[derive(Debug)]
pub struct HealthResponse {
    pub status: String,
    pub tool_count: usize,
    pub provider: String,
    pub model: String,
    /// How many MCP servers are configured.
    pub mcp: usize,
}

/// The health report: `ok`, with the number of tools, the provider and
/// model in use, and the number of MCP servers.
pub fn health(tool_count: usize, resolved: &ResolvedConfig, mcp_count: usize) -> (r: HealthResponse)
    ensures
        r.status@ == "ok"@,
        r.tool_count == tool_count,
        r.provider@ == resolved.provider@,
        r.model@ == resolved.model@,
        r.mcp == mcp_count,
{
    HealthResponse {
        status: owned("ok"),
        tool_count,
        provider: resolved.provider.clone(),
        model: resolved.model.clone(),
        mcp: mcp_count,
    }
}

/// A tool in the server's tool list.
#[derive(Debug)]
pub struct ToolInfo {
    pub name: String,
    pub description: String,
    pub parameters: serde_json::Value,
}

/// A tool's entry in the tool list.
pub fn tool_info(def: ToolDefinition) -> (r: ToolInfo)
    ensures
        r.name == def.name,
        r.description == def.description,
        r.parameters == def.parameters,
{
    ToolInfo { name: def.name, description: def.description, parameters: def.parameters }
}

/// An HTTP error: status code and body.
#[derive(Debug)]
pub struct HttpError {
    pub status: u16,
    pub body: String,
}

/// The answer to a call of a tool that is not registered.
pub fn tool_not_found(name: &str) -> (r: HttpError)
    ensures
        r.status == 404,
        r.body@ == "Tool '"@ + name@ + "' not found"@,
{
    let mut b = owned("Tool '");
    push_str(&mut b, name);
    push_str(&mut b, "' not found");
    HttpError { status: 404, body: b }
}

/// The answer to a tool call that failed.
pub fn tool_failed(e: &ToolError) -> (r: HttpError)
    ensures
        r.status == 500,
        r.body@ == "Tool execution failed: "@ + tool_error_text(*e),
{
    let mut b = owned("Tool execution failed: ");
    push_str(&mut b, e.message().as_str());
    HttpError { status: 500, body: b }
}

/// The answer to a request for a session that cannot be loaded.
pub fn session_not_found(id: &str, err: &str) -> (r: HttpError)
    ensures
        r.status == 404,
        r.body@ == "Session '"@ + id@ + "' not found: "@ + err@,
{
    let mut b = owned("Session '");
    push_str(&mut b, id);
    push_str(&mut b, "' not found: ");
    push_str(&mut b, err);
    HttpError { status: 404, body: b }
}

/// A saved session in the session list.
#[derive(Debug)]
pub struct SessionSummary {
    pub session_id: String,
    pub model: String,
    pub provider: String,
    pub message_count: usize,
    pub updated_at: String,
    pub created_at: String,
}

/// A saved session's entry in the session list.
pub fn session_summary(s: SessionFile) -> (r: SessionSummary)
    ensures
        r.session_id == s.session_id,
        r.model == s.model,
        r.provider == s.provider,
        r.message_count == s.messages@.len(),
        r.updated_at == s.updated_at,
        r.created_at == s.created_at,
{
    let n = s.messages.len();
    SessionSummary {
        session_id: s.session_id,
        model: s.model,
        provider: s.provider,
        message_count: n,
        updated_at: s.updated_at,
        created_at: s.created_at,
    }
}

/// An IPv4 address that is announced over mDNS: neither loopback
/// (127.0.0.0/8) nor link-local (169.254.0.0/16).
pub open spec fn announced(a: (u8, u8, u8, u8)) -> bool {
    a.0 != 127 && !(a.0 == 169 && a.1 == 254)
}

/// An IPv4 address in dotted decimal.
pub open spec fn dotted(a: (u8, u8, u8, u8)) -> Seq<char> {
    decimal(a.0 as nat) + "."@ + decimal(a.1 as nat) + "."@ + decimal(a.2 as nat) + "."@ + decimal(a.3 as nat)
}

/// The addresses announced over mDNS: loopback, then each of the
/// machine's IPv4 addresses that is neither loopback nor link-local, in
/// order.
pub open spec fn mdns_list(candidates: Seq<(u8, u8, u8, u8)>) -> Seq<Seq<char>> {
    seq!["127.0.0.1"@] + candidates.filter(|a: (u8, u8, u8, u8)| announced(a)).map_values(|a: (u8, u8, u8, u8)| dotted(a))
}

/// The addresses announced over mDNS for the machine's IPv4 addresses.
pub fn mdns_addresses(candidates: &Vec<(u8, u8, u8, u8)>) -> (r: Vec<String>)
    ensures
        r@.map_values(|s: String| s@) == mdns_list(candidates@),
{
    let ghost pred = |a: (u8, u8, u8, u8)| announced(a);
    let ghost f = |a: (u8, u8, u8, u8)| dotted(a);
    let mut out: Vec<String> = Vec::new();
    out.push(owned("127.0.0.1"));
    let mut i: usize = 0;
    while i < candidates.len()
        invariant
            i <= candidates@.len(),
            pred == (|a: (u8, u8, u8, u8)| announced(a)),
            f == (|a: (u8, u8, u8, u8)| dotted(a)),
            out@.map_values(|s: String| s@) == seq!["127.0.0.1"@] + candidates@.subrange(0, i as int).filter(pred).map_values(f),
        decreases candidates@.len() - i,
    {
        let a = candidates[i];
        proof {
            candidates@.subrange(0, i as int).lemma_filter_push(a, pred);
            assert(candidates@.subrange(0, i as int).push(a) =~= candidates@.subrange(0, i + 1));
        }
        if a.0 != 127 && !(a.0 == 169 && a.1 == 254) {
            let mut t = String::new();
            push_decimal(&mut t, a.0 as u64);
            push_str(&mut t, ".");
            push_decimal(&mut t, a.1 as u64);
            push_str(&mut t, ".");
            push_decimal(&mut t, a.2 as u64);
            push_str(&mut t, ".");
            push_decimal(&mut t, a.3 as u64);
            let ghost prev = out@;
            out.push(t);
            assert(out@.map_values(|s: String| s@) =~= prev.map_values(|s: String| s@).push(dotted(a)));
            assert(candidates@.subrange(0, i + 1).filter(pred).map_values(f) =~= candidates@.subrange(0, i as int).filter(
                pred,
            ).map_values(f).push(dotted(a)));
        }
        i = i + 1;
    }
    assert(candidates@.subrange(0, i as int) =~= candidates@);
    out
}

} // verus!
