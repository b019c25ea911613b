//! What the built-in tools make of their arguments and of what the file
//! system, processes and network hand back. The I/O itself is the caller's.
use vstd::prelude::*;
use crate::builtin::BuiltinTool;
use crate::matcher::{TextGlob, TextRegex, glob_error, glob_match, regex_error, regex_match};
use crate::text::{chars_of, decimal, lines, lines_of, owned, push_decimal, push_signed, push_str, signed_decimal};
use crate::tool::{ToolError, ToolResult};

verus! {

/// The arguments a built-in tool reads, each as found in the call's JSON
/// object (absent, or of another JSON type, reads as `None`).
#[derive(Debug)]
pub struct ArgFields {
    pub path: Option<String>,
    pub content: Option<String>,
    pub append: Option<bool>,
    pub recursive: Option<bool>,
    pub pattern: Option<String>,
    /// The search's file filter (the argument named so in the schema).
    pub file_glob: Option<String>,
    pub max_depth: Option<u64>,
    pub command: Option<String>,
    pub timeout_secs: Option<u64>,
    pub url: Option<String>,
    pub start: Option<u64>,
    pub end: Option<u64>,
    pub old: Option<String>,
    pub new: Option<String>,
}

/// A built-in tool call with its arguments read and defaults applied.
#[derive(Debug)]
pub enum ToolRequest {
    Read { path: String },
    Write { path: String, content: String, append: bool },
    Ls { path: String, recursive: bool },
    Find { pattern: String, path: String, max_depth: Option<u64> },
    Grep { pattern: String, path: String, file_glob: Option<String> },
    Info { path: String },
    Shell { command: String, timeout_secs: u64 },
    Fetch { url: String, timeout_secs: u64 },
    ReadRange { path: String, start: Option<u64>, end: Option<u64> },
    Edit { path: String, old: String, new: String },
}

/// The first required argument that a call of `tool` lacks, in the order
/// the tool reads them.
pub open spec fn first_missing(tool: BuiltinTool, f: ArgFields) -> Option<Seq<char>> {
    match tool {
        BuiltinTool::FsRead | BuiltinTool::FsInfo | BuiltinTool::FsReadRange => if f.path is None {
            Some("path"@)
        } else {
            None
        },
        BuiltinTool::FsWrite => if f.path is None {
            Some("path"@)
        } else if f.content is None {
            Some("content"@)
        } else {
            None
        },
        BuiltinTool::FsFind | BuiltinTool::FsGrep => if f.pattern is None {
            Some("pattern"@)
        } else {
            None
        },
        BuiltinTool::ShellExec => if f.command is None {
            Some("command"@)
        } else {
            None
        },
        BuiltinTool::WebFetch => if f.url is None {
            Some("url"@)
        } else {
            None
        },
        BuiltinTool::FsEdit => if f.path is None {
            Some("path"@)
        } else if f.old is None {
            Some("old"@)
        } else if f.new is None {
            Some("new"@)
        } else {
            None
        },
        BuiltinTool::FsLs => None,
    }
}

/// A string argument, or the default.
pub open spec fn text_or(o: Option<String>, d: Seq<char>) -> Seq<char> {
    match o {
        Some(s) => s@,
        None => d,
    }
}

/// The request a call of `tool` makes when no required argument is missing.
pub open spec fn request_of(tool: BuiltinTool, f: ArgFields, q: ToolRequest) -> bool {
    match tool {
        BuiltinTool::FsRead => q matches ToolRequest::Read { path } && Some(path) == f.path,
        BuiltinTool::FsWrite => q matches ToolRequest::Write { path, content, append } && Some(path) == f.path
            && Some(content) == f.content && append == (f.append == Some(true)),
        BuiltinTool::FsLs => q matches ToolRequest::Ls { path, recursive } && path@ == text_or(f.path, "."@)
            && recursive == (f.recursive == Some(true)),
        BuiltinTool::FsFind => q matches ToolRequest::Find { pattern, path, max_depth } && Some(pattern) == f.pattern
            && path@ == text_or(f.path, "."@) && max_depth == f.max_depth,
        BuiltinTool::FsGrep => q matches ToolRequest::Grep { pattern, path, file_glob } && Some(pattern) == f.pattern
            && path@ == text_or(f.path, "."@) && file_glob == f.file_glob,
        BuiltinTool::FsInfo => q matches ToolRequest::Info { path } && Some(path) == f.path,
        BuiltinTool::ShellExec => q matches ToolRequest::Shell { command, timeout_secs } && Some(command) == f.command
            && timeout_secs == (match f.timeout_secs { Some(t) => t, None => 30 }),
        BuiltinTool::WebFetch => q matches ToolRequest::Fetch { url, timeout_secs } && Some(url) == f.url
            && timeout_secs == (match f.timeout_secs { Some(t) => t, None => 15 }),
        BuiltinTool::FsReadRange => q matches ToolRequest::ReadRange { path, start, end } && Some(path) == f.path
            && start == f.start && end == f.end,
        BuiltinTool::FsEdit => q matches ToolRequest::Edit { path, old, new } && Some(path) == f.path
            && Some(old) == f.old && Some(new) == f.new,
    }
}

/// A write asks to append exactly when the call's `append` argument is
/// `true`; otherwise the file is overwritten. The path and the text written
/// are the call's.
pub proof fn law_write_appends_only_when_asked(f: ArgFields, q: ToolRequest)
    requires
        request_of(BuiltinTool::FsWrite, f, q),
    ensures
        q is Write,
        f.append == Some(true) ==> q->Write_append,
        f.append != Some(true) ==> !q->Write_append,
        Some(q->Write_path) == f.path,
        Some(q->Write_content) == f.content,
{
}

/// An edit searches for the call's `old` text and puts the call's `new`
/// text in its place, in the file the call names.
pub proof fn law_edit_replaces_old_by_new(f: ArgFields, q: ToolRequest)
    requires
        request_of(BuiltinTool::FsEdit, f, q),
    ensures
        q is Edit,
        Some(q->Edit_old) == f.old,
        Some(q->Edit_new) == f.new,
        Some(q->Edit_path) == f.path,
{
}

/// A search keeps the call's file filter: with an `include` glob only
/// matching files are searched, without one every file is.
pub proof fn law_grep_keeps_the_file_filter(f: ArgFields, q: ToolRequest)
    requires
        request_of(BuiltinTool::FsGrep, f, q),
    ensures
        q is Grep,
        q->Grep_file_glob == f.file_glob,
        f.file_glob is None <==> q->Grep_file_glob is None,
        Some(q->Grep_pattern) == f.pattern,
{
}

/// A line-range read asks for the lines the call names: its first line is
/// the call's `start` and its last the call's `end`, each unset only when
/// the call leaves it out.
pub proof fn law_read_range_keeps_the_range(f: ArgFields, q: ToolRequest)
    requires
        request_of(BuiltinTool::FsReadRange, f, q),
    ensures
        q is ReadRange,
        q->ReadRange_start == f.start,
        q->ReadRange_end == f.end,
        f.end is Some <==> q->ReadRange_end is Some,
        Some(q->ReadRange_path) == f.path,
{
}

/// The error for a missing required argument.
pub open spec fn missing_text(key: Seq<char>) -> Seq<char> {
    "Missing required '"@ + key + "'"@
}

/// The error for a missing required argument.
pub fn missing(key: &str) -> (r: ToolError)
    ensures
        r matches ToolError::Execution(m) && m@ == missing_text(key@),
{
    let mut m = owned("Missing required '");
    push_str(&mut m, key);
    push_str(&mut m, "'");
    ToolError::Execution(m)
}

/// A required string argument, or the error that it is missing.
pub fn req_str(field: Option<String>, key: &str) -> (r: Result<String, ToolError>)
    ensures
        match field {
            Some(s) => r == Ok::<String, ToolError>(s),
            None => r matches Err(ToolError::Execution(m)) && m@ == missing_text(key@),
        },
{
    match field {
        Some(s) => Ok(s),
        None => Err(missing(key)),
    }
}

/// The request that a call of `tool` makes, or the error for the first
/// required argument it lacks.
pub fn request_from_fields(tool: BuiltinTool, f: ArgFields) -> (r: Result<ToolRequest, ToolError>)
    ensures
        match first_missing(tool, f) {
            Some(k) => r matches Err(ToolError::Execution(m)) && m@ == missing_text(k),
            None => r matches Ok(q) && request_of(tool, f, q),
        },
{
    let ghost f0 = f;
    match tool {
        BuiltinTool::FsRead => {
            let path = req_str(f.path, "path")?;
            Ok(ToolRequest::Read { path })
        },
        BuiltinTool::FsWrite => {
            let path = req_str(f.path, "path")?;
            let content = req_str(f.content, "content")?;
            let append = match f.append { Some(b) => b, None => false };
            Ok(ToolRequest::Write { path, content, append })
        },
        BuiltinTool::FsLs => {
            let path = match f.path { Some(p) => p, None => owned(".") };
            let recursive = match f.recursive { Some(b) => b, None => false };
            Ok(ToolRequest::Ls { path, recursive })
        },
        BuiltinTool::FsFind => {
            let pattern = req_str(f.pattern, "pattern")?;
            let path = match f.path { Some(p) => p, None => owned(".") };
            Ok(ToolRequest::Find { pattern, path, max_depth: f.max_depth })
        },
        BuiltinTool::FsGrep => {
            let pattern = req_str(f.pattern, "pattern")?;
            let path = match f.path { Some(p) => p, None => owned(".") };
            Ok(ToolRequest::Grep { pattern, path, file_glob: f.file_glob })
        },
        BuiltinTool::FsInfo => {
            let path = req_str(f.path, "path")?;
            Ok(ToolRequest::Info { path })
        },
        BuiltinTool::ShellExec => {
            let command = req_str(f.command, "command")?;
            let timeout_secs = match f.timeout_secs { Some(t) => t, None => 30 };
            Ok(ToolRequest::Shell { command, timeout_secs })
        },
        BuiltinTool::WebFetch => {
            let url = req_str(f.url, "url")?;
            let timeout_secs = match f.timeout_secs { Some(t) => t, None => 15 };
            Ok(ToolRequest::Fetch { url, timeout_secs })
        },
        BuiltinTool::FsReadRange => {
            let path = req_str(f.path, "path")?;
            Ok(ToolRequest::ReadRange { path, start: f.start, end: f.end })
        },
        BuiltinTool::FsEdit => {
            let path = req_str(f.path, "path")?;
            let old = req_str(f.old, "old")?;
            let new = req_str(f.new, "new")?;
            Ok(ToolRequest::Edit { path, old, new })
        },
    }
}

/// The report of a write.
pub open spec fn write_text(path: Seq<char>, append: bool) -> Seq<char> {
    path + if append { " appended"@ } else { " written"@ }
}

/// The report of a write: the path, then `appended` or `written`.
pub fn write_report(path: &str, append: bool) -> (r: ToolResult)
    ensures
        r.content@ == write_text(path@, append),
        !r.is_error,
        r.metadata is None,
{
    let mut t = owned(path);
    push_str(&mut t, if append { " appended" } else { " written" });
    ToolResult::text(t)
}

/// The error of an I/O step on a path, such as `read notes.txt: ...`.
pub fn path_error(step: &str, path: &str, err: &str) -> (r: ToolError)
    ensures
        r matches ToolError::Execution(m) && m@ == step@ + " "@ + path@ + ": "@ + err@,
{
    let mut m = owned(step);
    push_str(&mut m, " ");
    push_str(&mut m, path);
    push_str(&mut m, ": ");
    push_str(&mut m, err);
    ToolError::Execution(m)
}

/// The error of a step with no path, such as `spawn: ...`.
pub fn step_error(step: &str, err: &str) -> (r: ToolError)
    ensures
        r matches ToolError::Execution(m) && m@ == step@ + ": "@ + err@,
{
    let mut m = owned(step);
    push_str(&mut m, ": ");
    push_str(&mut m, err);
    ToolError::Execution(m)
}

/// A command's output: its standard output, then its standard error on a
/// line of its own.
pub open spec fn shell_text(stdout: Seq<char>, stderr: Seq<char>) -> Seq<char> {
    if stderr.len() == 0 {
        stdout
    } else if stdout.len() == 0 {
        stderr
    } else {
        stdout + "\n"@ + stderr
    }
}

/// How an exit code reads; `?` when the process was killed by a signal.
pub open spec fn exit_code_text(code: Option<i32>) -> Seq<char> {
    match code {
        Some(c) => signed_decimal(c as int),
        None => "?"@,
    }
}

/// The result of a finished command: its output, or on failure the exit
/// code and the output.
pub fn shell_result(stdout: &str, stderr: &str, success: bool, code: Option<i32>) -> (r: ToolResult)
    ensures
        r.content@ == if success {
            shell_text(stdout@, stderr@)
        } else {
            "exit code "@ + exit_code_text(code) + ":\n"@ + shell_text(stdout@, stderr@)
        },
        r.is_error == !success,
        r.metadata is None,
{
    let mut text = owned(stdout);
    if !stderr.is_empty() {
        if !text.as_str().is_empty() {
            push_str(&mut text, "\n");
        }
        push_str(&mut text, stderr);
    }
    assert(text@ == shell_text(stdout@, stderr@));
    if success {
        ToolResult::text(text)
    } else {
        let mut m = owned("exit code ");
        match code {
            Some(c) => push_signed(&mut m, c),
            None => push_str(&mut m, "?"),
        }
        push_str(&mut m, ":\n");
        push_str(&mut m, text.as_str());
        ToolResult::error(m)
    }
}

/// The error of a command that ran out of time.
pub fn shell_timeout(timeout_secs: u64, command: &str) -> (r: ToolError)
    ensures
        r matches ToolError::Execution(m) && m@ == "command timed out after "@ + decimal(timeout_secs as nat) + "s: "@
            + command@,
{
    let mut m = owned("command timed out after ");
    push_decimal(&mut m, timeout_secs);
    push_str(&mut m, "s: ");
    push_str(&mut m, command);
    ToolError::Execution(m)
}

/// Why a fetch failed.
#[derive(Debug, Clone, Copy, PartialEq, Eq, Structural)]
pub enum FetchFailure {
    Timeout,
    Connect,
    Other,
}

/// The error of a failed fetch.
pub open spec fn fetch_error_text(kind: FetchFailure, timeout_secs: u64, url: Seq<char>, err: Seq<char>) -> Seq<char> {
    match kind {
        FetchFailure::Timeout => "timeout after "@ + decimal(timeout_secs as nat) + "s: "@ + url,
        FetchFailure::Connect => "connection failed: "@ + url + " — "@ + err,
        FetchFailure::Other => "fetch "@ + url + ": "@ + err,
    }
}

/// The error of a failed fetch.
pub fn fetch_error(kind: FetchFailure, timeout_secs: u64, url: &str, err: &str) -> (r: ToolError)
    ensures
        r matches ToolError::Execution(m) && m@ == fetch_error_text(kind, timeout_secs, url@, err@),
{
    let mut m: String;
    match kind {
        FetchFailure::Timeout => {
            m = owned("timeout after ");
            push_decimal(&mut m, timeout_secs);
            push_str(&mut m, "s: ");
            push_str(&mut m, url);
        },
        FetchFailure::Connect => {
            m = owned("connection failed: ");
            push_str(&mut m, url);
            push_str(&mut m, " — ");
            push_str(&mut m, err);
        },
        FetchFailure::Other => {
            m = owned("fetch ");
            push_str(&mut m, url);
            push_str(&mut m, ": ");
            push_str(&mut m, err);
        },
    }
    ToolError::Execution(m)
}

/// The most a fetched page shows.
pub const PAGE_LIMIT: usize = 100000;

/// A fetched page as shown: whole when its UTF-8 form has at most 100000
/// bytes, else its first 100000 characters and a note of its size in bytes.
pub open spec fn page_text(body: Seq<char>) -> Seq<char> {
    let bytes = vstd::utf8::encode_utf8(body).len();
    if bytes > 100000 {
        body.take(if body.len() < 100000 { body.len() as int } else { 100000 }) + "\n\n...(truncated, total "@ + decimal(bytes) + " chars)"@
    } else {
        body
    }
}

/// The result of a fetch that got an answer: the page, or on an HTTP
/// error status the status and the body.
pub fn fetch_result(success: bool, status: &str, body: &str) -> (r: ToolResult)
    requires
        vstd::utf8::encode_utf8(body@).len() <= usize::MAX,
    ensures
        r.content@ == if success { page_text(body@) } else { "HTTP "@ + status@ + ":\n"@ + body@ },
        r.is_error == !success,
        r.metadata is None,
{
    if !success {
        let mut m = owned("HTTP ");
        push_str(&mut m, status);
        push_str(&mut m, ":\n");
        push_str(&mut m, body);
        return ToolResult::error(m);
    }
    let bytes = body.len();
    if bytes > PAGE_LIMIT {
        let cs = chars_of(body);
        let n = if cs.len() < PAGE_LIMIT { cs.len() } else { PAGE_LIMIT };
        let mut t = crate::text::string_from_range(cs.as_slice(), 0, n);
        push_str(&mut t, "\n\n...(truncated, total ");
        push_decimal(&mut t, bytes as u64);
        push_str(&mut t, " chars)");
        assert(cs@.subrange(0, n as int) =~= body@.take(if body@.len() < 100000 { body@.len() as int } else { 100000 }));
        ToolResult::text(t)
    } else {
        ToolResult::text(owned(body))
    }
}

/// What a file-system entry is.
pub open spec fn kind_text(is_dir: bool, is_symlink: bool) -> Seq<char> {
    if is_dir {
        "dir"@
    } else if is_symlink {
        "symlink"@
    } else {
        "file"@
    }
}

/// What a file-system entry is: `dir`, `symlink` or `file`.
pub fn entry_kind(is_dir: bool, is_symlink: bool) -> (r: &'static str)
    ensures
        r@ == kind_text(is_dir, is_symlink),
{
    if is_dir {
        "dir"
    } else if is_symlink {
        "symlink"
    } else {
        "file"
    }
}

/// A line of a file that a search matched.
#[derive(Debug)]
pub struct GrepMatch {
    pub file: String,
    /// 1-based line number.
    pub line: usize,
    pub content: String,
}

/// The lines of `content` that `re` matches, as (1-based line number, line).
pub open spec fn matching_lines(content: Seq<char>, re: Seq<char>) -> Seq<(int, Seq<char>)> {
    let ls = lines(content);
    Seq::new(ls.len(), |i: int| (i + 1, ls[i])).filter(|p: (int, Seq<char>)| regex_match(re, p.1))
}

/// The matches of `re` in one file's content, in line order.
pub fn grep_content(file: &str, content: &str, re: &TextRegex) -> (r: Vec<GrepMatch>)
    ensures
        r@.map_values(|m: GrepMatch| (m.line as int, m.content@)) == matching_lines(content@, re@),
        forall|k: int| 0 <= k < r@.len() ==> (#[trigger] r@[k]).file@ == file@,
{
    let ls = lines_of(content);
    let ghost lv = ls@.map_values(|l: String| l@);
    let ghost all = Seq::new(lv.len(), |i: int| (i + 1, lv[i]));
    let ghost pred = |p: (int, Seq<char>)| regex_match(re@, p.1);
    let mut out: Vec<GrepMatch> = Vec::new();
    let mut i: usize = 0;
    while i < ls.len()
        invariant
            i <= ls@.len(),
            lv == ls@.map_values(|l: String| l@),
            lv == lines(content@),
            all == Seq::new(lv.len(), |i: int| (i + 1, lv[i])),
            pred == (|p: (int, Seq<char>)| regex_match(re@, p.1)),
            out@.map_values(|m: GrepMatch| (m.line as int, m.content@)) == all.subrange(0, i as int).filter(pred),
            forall|k: int| 0 <= k < out@.len() ==> (#[trigger] out@[k]).file@ == file@,
        decreases ls@.len() - i,
    {
        let hit = re.is_match(ls[i].as_str());
        proof {
            assert(all.subrange(0, i + 1).drop_last() =~= all.subrange(0, i as int));
            assert(all.subrange(0, i + 1).last() == (i + 1, lv[i as int]));
            assert(ls@[i as int]@ == lv[i as int]);
            all.subrange(0, i as int).lemma_filter_push((i + 1, lv[i as int]), pred);
            assert(all.subrange(0, i as int).push((i + 1, lv[i as int])) =~= all.subrange(0, i + 1));
        }
        if hit {
            let ghost prev = out@;
            out.push(GrepMatch { file: owned(file), line: i + 1, content: ls[i].clone() });
            assert(out@.map_values(|m: GrepMatch| (m.line as int, m.content@)) =~= prev.map_values(
                |m: GrepMatch| (m.line as int, m.content@),
            ).push((i + 1, lv[i as int])));
        }
        i = i + 1;
    }
    assert(all.subrange(0, i as int) =~= all);
    out
}

/// Whether a file passes the search's file filter: no filter, or the
/// glob matches its path or its name.
pub fn file_filter_allows(file_glob: &Option<TextGlob>, path: &str, file_name: &str) -> (r: bool)
    ensures
        r == match file_glob {
            Some(g) => glob_match(g@, path@) || glob_match(g@, file_name@),
            None => true,
        },
{
    match file_glob {
        Some(g) => g.matches(path) || g.matches(file_name),
        None => true,
    }
}

/// The search's file filter: the glob compiled, or no filter when it
/// does not compile.
pub fn file_filter(file_glob: &Option<String>) -> (r: Option<TextGlob>)
    ensures
        match file_glob {
            Some(p) => match r {
                Some(g) => g@ == p@ && glob_error(p@) is None,
                None => glob_error(p@) is Some,
            },
            None => r is None,
        },
{
    match file_glob {
        Some(p) => match TextGlob::new(p.as_str()) {
            Ok(g) => Some(g),
            Err(_) => None,
        },
        None => None,
    }
}

/// The error for a regular expression that does not compile.
pub fn compile_search(pattern: &str) -> (r: Result<TextRegex, ToolError>)
    ensures
        match r {
            Ok(re) => re@ == pattern@ && regex_error(pattern@) is None,
            Err(ToolError::Execution(m)) => regex_error(pattern@) matches Some(e)
                && m@ == "bad regex '"@ + pattern@ + "': "@ + e,
            Err(_) => false,
        },
{
    match TextRegex::new(pattern) {
        Ok(re) => Ok(re),
        Err(e) => {
            let mut m = owned("bad regex '");
            push_str(&mut m, pattern);
            push_str(&mut m, "': ");
            push_str(&mut m, e.as_str());
            Err(ToolError::Execution(m))
        },
    }
}

/// The error for a glob that does not compile.
pub fn compile_find(pattern: &str) -> (r: Result<TextGlob, ToolError>)
    ensures
        match r {
            Ok(g) => g@ == pattern@ && glob_error(pattern@) is None,
            Err(ToolError::Execution(m)) => glob_error(pattern@) matches Some(e)
                && m@ == "bad glob '"@ + pattern@ + "': "@ + e,
            Err(_) => false,
        },
{
    match TextGlob::new(pattern) {
        Ok(g) => Ok(g),
        Err(e) => {
            let mut m = owned("bad glob '");
            push_str(&mut m, pattern);
            push_str(&mut m, "': ");
            push_str(&mut m, e.as_str());
            Err(ToolError::Execution(m))
        },
    }
}

/// Whether a found path is kept: the glob matches its relative or its
/// full path.
pub fn find_keeps(g: &TextGlob, relative: &str, full: &str) -> (r: bool)
    ensures
        r == (glob_match(g@, relative@) || glob_match(g@, full@)),
{
    g.matches(relative) || g.matches(full)
}

/// Whether a search `depth` levels down still looks into its directory.
pub fn within_depth(max_depth: Option<u64>, depth: u64) -> (r: bool)
    ensures
        r == match max_depth {
            Some(m) => depth <= m,
            None => true,
        },
{
    match max_depth {
        Some(m) => depth <= m,
        None => true,
    }
}

/// A directory entry as a listing shows it.
#[derive(Debug)]
pub struct DirEntry {
    pub name: String,
    pub path: String,
    /// `dir`, `symlink` or `file`.
    pub kind: String,
    pub size: u64,
    /// Seconds since the Unix epoch, in decimal (0 when unknown).
    pub modified: String,
}

/// A listing's entry for what the file system says of it.
pub fn dir_entry(name: String, path: String, is_dir: bool, is_symlink: bool, size: u64, modified_secs: Option<u64>) -> (r: DirEntry)
    ensures
        r.name == name,
        r.path == path,
        r.kind@ == kind_text(is_dir, is_symlink),
        r.size == size,
        r.modified@ == decimal(match modified_secs { Some(m) => m as nat, None => 0 }),
{
    let m: u64 = match modified_secs { Some(m) => m, None => 0 };
    DirEntry {
        name,
        path,
        kind: owned(entry_kind(is_dir, is_symlink)),
        size,
        modified: crate::text::decimal_string(m),
    }
}

/// A listing sorted by name; entries of the same name keep their order.
pub fn sort_entries(entries: Vec<DirEntry>) -> (r: Vec<DirEntry>)
    ensures
        exists|keyed: Seq<(String, DirEntry)>, sorted: Seq<(String, DirEntry)>, p: Seq<int>|
            keyed.len() == entries@.len() && (forall|i: int|
                0 <= i < keyed.len() ==> (#[trigger] keyed[i]).1 == entries@[i] && keyed[i].0@ == entries@[i].name@)
                && crate::sort::stably_sorted(keyed, sorted, p, false) && r@ == sorted.map_values(|e: (String, DirEntry)| e.1),
{
    let ghost orig = entries@;
    let mut keyed: Vec<(String, DirEntry)> = Vec::new();
    let mut rest = entries;
    let mut i: usize = 0;
    let n = rest.len();
    while rest.len() > 0
        invariant
            n == orig.len(),
            i + rest@.len() == n,
            rest@ == orig.subrange(i as int, n as int),
            keyed@.len() == i,
            forall|k: int| 0 <= k < i ==> (#[trigger] keyed@[k]).1 == orig[k] && keyed@[k].0@ == orig[k].name@,
        decreases rest@.len(),
    {
        let e = rest.remove(0);
        let key = e.name.clone();
        keyed.push((key, e));
        i = i + 1;
        assert(rest@ =~= orig.subrange(i as int, n as int));
    }
    let sorted = crate::sort::stable_sort_by_key(keyed, false);
    let ghost sv = sorted@;
    let mut out: Vec<DirEntry> = Vec::new();
    let mut rest2 = sorted;
    let mut j: usize = 0;
    while rest2.len() > 0
        invariant
            n == sv.len(),
            j + rest2@.len() == n,
            rest2@ == sv.subrange(j as int, n as int),
            out@ == sv.subrange(0, j as int).map_values(|e: (String, DirEntry)| e.1),
        decreases rest2@.len(),
    {
        let (_, e) = rest2.remove(0);
        out.push(e);
        j = j + 1;
        assert(rest2@ =~= sv.subrange(j as int, n as int));
        assert(out@ =~= sv.subrange(0, j as int).map_values(|e: (String, DirEntry)| e.1));
    }
    assert(sv.subrange(0, n as int) =~= sv);
    out
}

/// `r` is `paths` rearranged (`p[i]` is where `r[i]` was) into code-point
/// order.
pub open spec fn sorted_paths(paths: Seq<String>, r: Seq<String>, p: Seq<int>) -> bool {
    &&& r.len() == paths.len()
    &&& p.len() == paths.len()
    &&& forall|i: int| 0 <= i < r.len() ==> 0 <= #[trigger] p[i] < paths.len() && r[i]@ == paths[p[i]]@
    &&& forall|i: int, j: int| 0 <= i < j < r.len() ==> p[i] != p[j]
    &&& forall|i: int, j: int| 0 <= i < j < r.len() ==> crate::sort::lex_le(#[trigger] r[i]@, #[trigger] r[j]@)
}

/// Found paths in code-point order.
pub fn sort_paths(paths: Vec<String>) -> (r: Vec<String>)
    ensures
        exists|p: Seq<int>| sorted_paths(paths@, r@, p),
{
    let ghost orig = paths@;
    let mut keyed: Vec<(String, ())> = Vec::new();
    let mut i: usize = 0;
    while i < paths.len()
        invariant
            i <= orig.len(),
            orig == paths@,
            keyed@.len() == i,
            forall|k: int| 0 <= k < i ==> (#[trigger] keyed@[k]).0@ == orig[k]@,
        decreases orig.len() - i,
    {
        keyed.push((paths[i].clone(), ()));
        i = i + 1;
    }
    let ghost kv = keyed@;
    let sorted = crate::sort::stable_sort_by_key(keyed, false);
    let ghost p = choose|p: Seq<int>| crate::sort::stably_sorted(kv, sorted@, p, false);
    let mut out: Vec<String> = Vec::new();
    let mut j: usize = 0;
    while j < sorted.len()
        invariant
            j <= sorted@.len(),
            out@.len() == j,
            forall|k: int| 0 <= k < j ==> (#[trigger] out@[k])@ == sorted@[k].0@,
        decreases sorted@.len() - j,
    {
        out.push(sorted[j].0.clone());
        j = j + 1;
    }
    proof {
        assert forall|a: int, b: int| 0 <= a < b < out@.len() implies crate::sort::lex_le(
            #[trigger] out@[a]@,
            #[trigger] out@[b]@,
        ) by {
            assert(crate::sort::in_order(sorted@[a].0@, sorted@[b].0@, false));
        }
        assert forall|a: int| 0 <= a < out@.len() implies 0 <= #[trigger] p[a] < orig.len() && out@[a]@ == orig[p[a]]@ by {
            assert(sorted@[a] == kv[p[a]]);
        }
        assert(sorted_paths(orig, out@, p));
    }
    out
}

/// Where a tool's path argument points: itself when absolute, else under
/// the working directory.
pub fn resolve_path(path: &str, working_dir: &str) -> (r: String)
    ensures
        r@ == crate::storage::join_path(working_dir@, path@),
{
    crate::storage::join(working_dir, path)
}

} // verus!
