//! Saved sessions: where their files live, what a save writes, which files
//! are listed and in what order. Reading and writing files is the caller's.
use vstd::prelude::*;
use crate::llm::{Message, messages_view};
use crate::sort::{lex_le, stable_sort_by_key, stably_sorted};
use crate::text::{at_boundary, byte_range, byte_range_text, chars_of, decimal, owned, push_decimal, push_str, string_from_range, utf8_len};

verus! {

/// A saved session.
#[derive(Debug)]
pub struct SessionFile {
    pub session_id: String,
    pub model: String,
    pub provider: String,
    /// When the session was first saved (RFC 3339).
    pub created_at: String,
    /// When the session was last saved (RFC 3339).
    pub updated_at: String,
    pub messages: Vec<Message>,
}

/// `base` joined with the relative or absolute path `part`, as paths join
/// on Unix: an absolute `part` replaces `base`, and a separator goes
/// between them unless `base` is empty or ends with one.
pub open spec fn join_path(base: Seq<char>, part: Seq<char>) -> Seq<char> {
    if part.len() > 0 && part[0] == '/' {
        part
    } else if base.len() == 0 {
        part
    } else if base.last() == '/' {
        base + part
    } else {
        base + "/"@ + part
    }
}

/// Joins a path and a part.
pub fn join(base: &str, part: &str) -> (r: String)
    ensures
        r@ == join_path(base@, part@),
{
    let p = chars_of(part);
    if p.len() > 0 && p[0] == '/' {
        return owned(part);
    }
    let b = chars_of(base);
    if b.len() == 0 {
        return owned(part);
    }
    let mut s = owned(base);
    if b[b.len() - 1] != '/' {
        push_str(&mut s, "/");
    }
    push_str(&mut s, part);
    s
}

/// Where session files live: under `$XDG_DATA_HOME/aa/sessions`, else
/// `$HOME/.local/share/aa/sessions`, else `.aa/sessions`.
pub open spec fn data_dir_path(xdg_data_home: Option<Seq<char>>, home: Option<Seq<char>>) -> Seq<char> {
    match xdg_data_home {
        Some(d) => join_path(join_path(d, "aa"@), "sessions"@),
        None => match home {
            Some(h) => join_path(join_path(join_path(join_path(h, ".local"@), "share"@), "aa"@), "sessions"@),
            None => ".aa/sessions"@,
        },
    }
}

/// Where session files live, given `XDG_DATA_HOME` and `HOME` (each when
/// set).
pub fn data_dir(xdg_data_home: Option<&str>, home: Option<&str>) -> (r: String)
    ensures
        r@ == data_dir_path(
            match xdg_data_home {
                Some(d) => Some(d@),
                None => None,
            },
            match home {
                Some(h) => Some(h@),
                None => None,
            },
        ),
{
    match xdg_data_home {
        Some(d) => {
            let a = join(d, "aa");
            join(a.as_str(), "sessions")
        },
        None => match home {
            Some(h) => {
                let a = join(h, ".local");
                let b = join(a.as_str(), "share");
                let c = join(b.as_str(), "aa");
                join(c.as_str(), "sessions")
            },
            None => owned(".aa/sessions"),
        },
    }
}

/// The file of a session in the session directory: `<id>.json`.
pub fn session_path(dir: &str, session_id: &str) -> (r: String)
    ensures
        r@ == join_path(dir@, session_id@ + ".json"@),
{
    let mut name = owned(session_id);
    push_str(&mut name, ".json");
    join(dir, name.as_str())
}

/// Whether a file name has the extension `json` (a name that is only
/// `.json` has none).
pub open spec fn is_json_name(name: Seq<char>) -> bool {
    name.len() > 5 && name.subrange(name.len() - 5, name.len() as int) == ".json"@
}

/// Whether a directory entry is listed as a session file.
pub fn is_session_file(file_name: &str) -> (r: bool)
    ensures
        r == is_json_name(file_name@),
{
    let cs = chars_of(file_name);
    let n = cs.len();
    proof {
        reveal_strlit(".json");
    }
    if n <= 5 {
        return false;
    }
    let r = cs[n - 5] == '.' && cs[n - 4] == 'j' && cs[n - 3] == 's' && cs[n - 2] == 'o' && cs[n - 1] == 'n';
    proof {
        if r {
            assert(cs@.subrange(n - 5, n as int) =~= ".json"@);
        } else {
            if cs@.subrange(n - 5, n as int) == ".json"@ {
                assert(cs@.subrange(n - 5, n as int)[0] == '.');
                assert(cs@.subrange(n - 5, n as int)[1] == 'j');
                assert(cs@.subrange(n - 5, n as int)[2] == 's');
                assert(cs@.subrange(n - 5, n as int)[3] == 'o');
                assert(cs@.subrange(n - 5, n as int)[4] == 'n');
            }
        }
    }
    r
}

/// What a save writes: the existing file with the messages, model,
/// provider and update time replaced, or a new file created now.
pub fn saved_file(
    existing: Option<SessionFile>,
    session_id: &str,
    messages: &Vec<Message>,
    model: &str,
    provider: &str,
    now: &str,
) -> (r: SessionFile)
    ensures
        messages_view(r.messages@) == messages_view(messages@),
        r.model@ == model@,
        r.provider@ == provider@,
        r.updated_at@ == now@,
        match existing {
            Some(e) => r.session_id == e.session_id && r.created_at == e.created_at,
            None => r.session_id@ == session_id@ && r.created_at@ == now@,
        },
{
    match existing {
        Some(e) => SessionFile {
            session_id: e.session_id,
            model: owned(model),
            provider: owned(provider),
            created_at: e.created_at,
            updated_at: owned(now),
            messages: crate::llm::clone_messages(messages),
        },
        None => SessionFile {
            session_id: owned(session_id),
            model: owned(model),
            provider: owned(provider),
            created_at: owned(now),
            updated_at: owned(now),
            messages: crate::llm::clone_messages(messages),
        },
    }
}

/// Sessions listed most recently updated first; sessions updated at the
/// same time keep their order.
pub fn sort_sessions(sessions: Vec<SessionFile>) -> (r: Vec<SessionFile>)
    ensures
        exists|keyed: Seq<(String, SessionFile)>, sorted: Seq<(String, SessionFile)>, p: Seq<int>|
            keyed.len() == sessions@.len() && (forall|i: int|
                0 <= i < keyed.len() ==> (#[trigger] keyed[i]).1 == sessions@[i] && keyed[i].0@ == sessions@[i].updated_at@)
                && stably_sorted(keyed, sorted, p, true) && r@ == sorted.map_values(|e: (String, SessionFile)| e.1),
{
    let ghost orig = sessions@;
    let mut keyed: Vec<(String, SessionFile)> = Vec::new();
    let mut rest = sessions;
    let mut i: usize = 0;
    let n = rest.len();
    while rest.len() > 0
        invariant
            n == orig.len(),
            i + rest@.len() == n,
            rest@ == orig.subrange(i as int, n as int),
            keyed@.len() == i,
            forall|k: int| 0 <= k < i ==> (#[trigger] keyed@[k]).1 == orig[k] && keyed@[k].0@ == orig[k].updated_at@,
        decreases rest@.len(),
    {
        let s = rest.remove(0);
        let key = s.updated_at.clone();
        keyed.push((key, s));
        i = i + 1;
        assert(rest@ =~= orig.subrange(i as int, n as int));
    }
    let ghost kv = keyed@;
    let sorted = stable_sort_by_key(keyed, true);
    let ghost sv = sorted@;
    let mut out: Vec<SessionFile> = Vec::new();
    let mut rest2 = sorted;
    let mut j: usize = 0;
    while rest2.len() > 0
        invariant
            n == sv.len(),
            j + rest2@.len() == n,
            rest2@ == sv.subrange(j as int, n as int),
            out@ == sv.subrange(0, j as int).map_values(|e: (String, SessionFile)| e.1),
        decreases rest2@.len(),
    {
        let (_, s) = rest2.remove(0);
        out.push(s);
        j = j + 1;
        assert(rest2@ =~= sv.subrange(j as int, n as int));
        assert(out@ =~= sv.subrange(0, j as int).map_values(|e: (String, SessionFile)| e.1));
    }
    assert(sv.subrange(0, n as int) =~= sv);
    out
}

/// A session's line in `aa session list`: the first eight bytes of its
/// id, its model and its message count.
pub fn session_list_line(s: &SessionFile) -> (r: String)
    requires
        8 <= utf8_len(s.session_id@) <= usize::MAX,
        at_boundary(s.session_id@, 8),
    ensures
        r@ == "  "@ + byte_range_text(s.session_id@, 0, 8) + "  (model: "@ + s.model@ + ", "@ + decimal(
            s.messages@.len(),
        ) + " msgs)"@,
{
    proof {
        vstd::utf8::encode_utf8_valid_utf8(s.session_id@);
    }
    let mut t = owned("  ");
    push_str(&mut t, byte_range(s.session_id.as_str(), 0, 8).as_str());
    push_str(&mut t, "  (model: ");
    push_str(&mut t, s.model.as_str());
    push_str(&mut t, ", ");
    push_decimal(&mut t, s.messages.len() as u64);
    push_str(&mut t, " msgs)");
    t
}

} // verus!
