//! The built-in file and shell tools: their definitions and what they make
//! of file contents, command output and fetched pages. The file system,
//! processes and network are the caller's.
use vstd::prelude::*;
use crate::text::{
    at_boundary, byte_range, byte_range_text, chars_of, decimal, lemma_utf8_concat, lines, lines_of, owned, pad_left, push_char, push_decimal,
    push_padded, push_signed, push_str, signed_decimal, string_from_range, utf8_len,
};
use crate::tool::ToolResult;
use vstd::string::StringSliceAdditionalSpecFns;

verus! {

/// `parts` joined with `sep` between them.
pub open spec fn join(parts: Seq<Seq<char>>, sep: Seq<char>) -> Seq<char>
    decreases parts.len(),
{
    if parts.len() == 0 {
        Seq::empty()
    } else if parts.len() == 1 {
        parts[0]
    } else {
        join(parts.drop_last(), sep) + sep + parts.last()
    }
}

/// The first line shown by a line-range read (1-based, at least 1).
pub open spec fn range_first(start: Option<u64>) -> int {
    let s: u64 = match start { Some(v) => v, None => 1 };
    (if s < 1 { 1u64 } else { s }) as usize as int
}

/// The last line shown by a line-range read: the requested end, at most
/// the number of lines, or the last line.
pub open spec fn range_last(end: Option<u64>, total: int) -> int {
    match end {
        Some(v) => if (v as usize) as int <= total { (v as usize) as int } else { total },
        None => total,
    }
}

/// Line `n` shown with its number right-aligned in six columns.
pub open spec fn numbered_line(n: int, line: Seq<char>) -> Seq<char> {
    pad_left(decimal(n as nat), 6) + "  "@ + line
}

/// What a line-range read of `content` gives.
pub open spec fn read_range_text(path: Seq<char>, content: Seq<char>, start: Option<u64>, end: Option<u64>) -> (Seq<char>, bool) {
    let ls = lines(content);
    let total = ls.len() as int;
    let first = range_first(start);
    let last = range_last(end, total);
    if first > total {
        ("start line "@ + decimal(first as nat) + " > total lines "@ + decimal(total as nat), true)
    } else if first > last {
        ("start "@ + decimal(first as nat) + " > end "@ + decimal(last as nat), true)
    } else {
        let shown = Seq::new((last - first + 1) as nat, |i: int| numbered_line(first + i, ls[first - 1 + i]));
        (path + ":"@ + decimal(first as nat) + "-"@ + decimal(last as nat) + " ("@ + decimal((last - first + 1) as nat)
            + "/"@ + decimal(total as nat) + ")\n"@ + join(shown, "\n"@) + "\n"@, false)
    }
}

/// Reads lines `start..=end` (1-based) of `content`, each numbered; an
/// error result when the range is empty or starts past the end.
pub fn read_range(path: &str, content: &str, start: Option<u64>, end: Option<u64>) -> (r: ToolResult)
    requires
        range_first(start) >= 1,
    ensures
        (r.content@, r.is_error) == read_range_text(path@, content@, start, end),
        r.metadata is None,
{
    let ls = lines_of(content);
    let ghost lv = ls@.map_values(|l: String| l@);
    let total = ls.len();
    let s: u64 = match start { Some(v) => v, None => 1 };
    let first: usize = (if s < 1 { 1u64 } else { s }) as usize;
    let last: usize = match end {
        Some(v) => if (v as usize) <= total { v as usize } else { total },
        None => total,
    };
    if first > total {
        let mut t = owned("start line ");
        push_decimal(&mut t, first as u64);
        push_str(&mut t, " > total lines ");
        push_decimal(&mut t, total as u64);
        return ToolResult::error(t);
    }
    if first > last {
        let mut t = owned("start ");
        push_decimal(&mut t, first as u64);
        push_str(&mut t, " > end ");
        push_decimal(&mut t, last as u64);
        return ToolResult::error(t);
    }
    let mut t = owned(path);
    push_str(&mut t, ":");
    push_decimal(&mut t, first as u64);
    push_str(&mut t, "-");
    push_decimal(&mut t, last as u64);
    push_str(&mut t, " (");
    push_decimal(&mut t, (last - first + 1) as u64);
    push_str(&mut t, "/");
    push_decimal(&mut t, total as u64);
    push_str(&mut t, ")\n");
    let ghost head = t@;
    let count = last - first + 1;
    let ghost shown = Seq::new(count as nat, |i: int| numbered_line(first + i, lv[first - 1 + i]));
    let mut j: usize = 0;
    while j < count
        invariant
            1 <= first <= last <= total == ls@.len(),
            count == last - first + 1,
            j <= count,
            lv == ls@.map_values(|l: String| l@),
            shown == Seq::new(count as nat, |i: int| numbered_line(first + i, lv[first - 1 + i])),
            t@ == head + join(shown.subrange(0, j as int), "\n"@),
        decreases count - j,
    {
        let k = first + j;
        if j > 0 {
            push_str(&mut t, "\n");
        }
        push_padded(&mut t, k as u64, 6);
        push_str(&mut t, "  ");
        push_str(&mut t, ls[k - 1].as_str());
        proof {
            let sub = shown.subrange(0, j + 1);
            assert(sub.drop_last() =~= shown.subrange(0, j as int));
            assert(sub.last() == numbered_line(k as int, lv[k - 1]));
            if j == 0 {
                assert(shown.subrange(0, 0) =~= Seq::<Seq<char>>::empty());
            }
            assert(t@ =~= head + join(sub, "\n"@));
        }
        j = j + 1;
    }
    assert(shown.subrange(0, count as int) =~= shown);
    push_str(&mut t, "\n");
    ToolResult::text(t)
}

} // verus!

verus! {

/// `p` occurs in `s` at position `i`.
pub open spec fn occurs_at(s: Seq<char>, p: Seq<char>, i: int) -> bool {
    0 <= i && i + p.len() <= s.len() && s.subrange(i, i + p.len()) == p
}

/// How many times `p` occurs in `s` from `i` on, counted left to right
/// without overlap (`str::matches`); an empty `p` occurs at every position.
pub open spec fn count_from(s: Seq<char>, p: Seq<char>, i: int) -> nat
    decreases s.len() + 1 - i,
{
    if i < 0 || i > s.len() {
        0
    } else if occurs_at(s, p, i) {
        1 + count_from(s, p, i + if p.len() == 0 { 1 } else { p.len() as int })
    } else {
        count_from(s, p, i + 1)
    }
}

/// `j` is the first position at or after `i` where `p` occurs.
pub open spec fn first_from(s: Seq<char>, p: Seq<char>, i: int, j: int) -> bool {
    &&& i <= j
    &&& occurs_at(s, p, j)
    &&& forall|k: int| i <= k < j ==> !occurs_at(s, p, k)
}

/// The first position at or after `i` where `p` occurs.
pub open spec fn find_from(s: Seq<char>, p: Seq<char>, i: int) -> Option<int> {
    if exists|j: int| first_from(s, p, i, j) {
        Some(choose|j: int| first_from(s, p, i, j))
    } else {
        None
    }
}

/// There is only one first position.
pub proof fn lemma_first_from_unique(s: Seq<char>, p: Seq<char>, i: int, a: int, b: int)
    requires
        first_from(s, p, i, a),
        first_from(s, p, i, b),
    ensures
        a == b,
{
}

/// Whether `p` occurs in `cs` at `i`.
pub fn occurs(cs: &[char], p: &[char], i: usize) -> (r: bool)
    ensures
        r == occurs_at(cs@, p@, i as int),
{
    if i > cs.len() || p.len() > cs.len() - i {
        return false;
    }
    let n = cs.len();
    let mut k: usize = 0;
    while k < p.len()
        invariant
            n == cs@.len(),
            i + p@.len() <= cs@.len(),
            k <= p@.len(),
            forall|m: int| 0 <= m < k ==> cs@[i + m] == p@[m],
        decreases p@.len() - k,
    {
        if cs[i + k] != p[k] {
            assert(cs@.subrange(i as int, i + p@.len())[k as int] != p@[k as int]);
            return false;
        }
        k = k + 1;
    }
    assert(cs@.subrange(i as int, i + p@.len()) =~= p@);
    true
}

/// The first position at or after `i` where `p` occurs.
pub fn find_from_pos(cs: &[char], p: &[char], i: usize) -> (r: Option<usize>)
    ensures
        match r {
            Some(j) => find_from(cs@, p@, i as int) == Some(j as int),
            None => find_from(cs@, p@, i as int) is None,
        },
{
    let mut j: usize = i;
    while j < cs.len()
        invariant
            i <= j,
            forall|k: int| i <= k < j ==> !occurs_at(cs@, p@, k),
        decreases cs@.len() - j,
    {
        if occurs(cs, p, j) {
            proof {
                assert(first_from(cs@, p@, i as int, j as int));
                let c = choose|c: int| first_from(cs@, p@, i as int, c);
                lemma_first_from_unique(cs@, p@, i as int, j as int, c);
            }
            return Some(j);
        }
        j = j + 1;
    }
    if j == cs.len() && occurs(cs, p, j) {
        proof {
            assert(first_from(cs@, p@, i as int, j as int));
            let c = choose|c: int| first_from(cs@, p@, i as int, c);
            lemma_first_from_unique(cs@, p@, i as int, j as int, c);
        }
        return Some(j);
    }
    proof {
        assert forall|c: int| !first_from(cs@, p@, i as int, c) by {
            if first_from(cs@, p@, i as int, c) {
                assert(c + p@.len() <= cs@.len());
                if c < j {
                    assert(!occurs_at(cs@, p@, c));
                }
            }
        }
    }
    None
}

/// How many times `p` occurs in `cs`, left to right without overlap.
pub fn count_occurrences(cs: &[char], p: &[char]) -> (r: usize)
    requires
        cs@.len() < usize::MAX,
    ensures
        r == count_from(cs@, p@, 0),
{
    let mut i: usize = 0;
    let mut n: usize = 0;
    while i <= cs.len()
        invariant
            i <= cs@.len() + 1,
            n + count_from(cs@, p@, i as int) == count_from(cs@, p@, 0),
            n <= i,
            cs@.len() < usize::MAX,
        decreases cs@.len() + 1 - i,
    {
        if occurs(cs, p, i) {
            n = n + 1;
            if p.len() == 0 {
                if i == cs.len() {
                    assert(count_from(cs@, p@, i + 1) == 0);
                    return n;
                }
                i = i + 1;
            } else {
                i = i + p.len();
            }
        } else {
            if i == cs.len() {
                assert(count_from(cs@, p@, i + 1) == 0);
                return n;
            }
            i = i + 1;
        }
    }
    n
}

} // verus!

verus! {

/// `s` with each newline shown as a space.
pub open spec fn flatten_newlines(s: Seq<char>) -> Seq<char> {
    s.map_values(|c: char| if c == '\n' { ' ' } else { c })
}

/// Where the window around an occurrence at byte `at` starts: 40 bytes
/// before it, or the start of the text.
pub open spec fn window_lo(at: int) -> int {
    if at < 40 { 0 } else { at - 40 }
}

/// Where the window around a `p_bytes`-byte occurrence at byte `at` ends:
/// 40 bytes after it, or the end of the text.
pub open spec fn window_hi(s: Seq<char>, at: int, p_bytes: int) -> int {
    if at + p_bytes + 40 < utf8_len(s) { at + p_bytes + 40 } else { utf8_len(s) }
}

/// The text around the occurrence of `p` at character `abs`: up to 40
/// bytes on either side, newlines shown as spaces, between ellipses.
pub open spec fn window(s: Seq<char>, p: Seq<char>, abs: int) -> Seq<char> {
    let at = utf8_len(s.take(abs));
    "..."@ + flatten_newlines(byte_range_text(s, window_lo(at), window_hi(s, at, utf8_len(p)))) + "..."@
}

/// The window's ends fall between characters.
pub open spec fn window_defined(s: Seq<char>, p: Seq<char>, abs: int) -> bool {
    let at = utf8_len(s.take(abs));
    at_boundary(s, window_lo(at)) && at_boundary(s, window_hi(s, at, utf8_len(p)))
}

/// The windows of up to `n` occurrences of `p`, searched from `start`,
/// each search starting one byte past the last occurrence found.
pub open spec fn previews(s: Seq<char>, p: Seq<char>, start: int, n: nat) -> Seq<Seq<char>>
    decreases n,
{
    if n == 0 {
        Seq::empty()
    } else {
        match find_from(s, p, start) {
            Some(abs) => seq![window(s, p, abs)] + previews(s, p, abs + 1, (n - 1) as nat),
            None => previews(s, p, start, (n - 1) as nat),
        }
    }
}

/// The previews are defined: each window's ends fall between characters,
/// and each search after the first starts between characters (one byte
/// past an occurrence that starts with a one-byte character).
pub open spec fn previews_defined(s: Seq<char>, p: Seq<char>, start: int, n: nat) -> bool
    decreases n,
{
    if n == 0 {
        true
    } else {
        match find_from(s, p, start) {
            Some(abs) => {
                &&& window_defined(s, p, abs)
                &&& n > 1 ==> abs < s.len() && (s[abs] as u32) < 128
                &&& previews_defined(s, p, abs + 1, (n - 1) as nat)
            },
            None => previews_defined(s, p, start, (n - 1) as nat),
        }
    }
}

/// The 1-based number of the first line of `s` holding `p`, or 0.
pub open spec fn line_holding(ls: Seq<Seq<char>>, p: Seq<char>, i: int) -> int
    decreases ls.len() - i,
{
    if i < 0 || i >= ls.len() {
        0
    } else if find_from(ls[i], p, 0) is Some {
        i + 1
    } else {
        line_holding(ls, p, i + 1)
    }
}

/// What an edit of a file's content comes to.
#[derive(Debug)]
pub enum EditOutcome {
    /// `old` does not occur: the error message.
    NotFound(String),
    /// `old` occurs more than once: the error message.
    Ambiguous(String),
    /// `old` occurs once: the new content and the report.
    Replaced { content: String, message: String },
}

/// The report on an `old` that occurs `count` times, more than once: the
/// count and the windows of the first three occurrences.
pub open spec fn ambiguous_text(path: Seq<char>, s: Seq<char>, old: Seq<char>, count: nat) -> Seq<char> {
    "found "@ + decimal(count) + " occurrences in "@ + path + ". Use a more unique string. First matches:\n"@
        + join(previews(s, old, 0, if count < 3 { count } else { 3 }), "\n"@)
}

/// Where the first 50 bytes of `s` end (or `s` does).
pub open spec fn head_cut(s: Seq<char>) -> int {
    if utf8_len(s) < 50 { utf8_len(s) } else { 50 }
}

/// The text of at most the first 50 bytes of `s`.
pub open spec fn head50(s: Seq<char>) -> Seq<char> {
    byte_range_text(s, 0, head_cut(s))
}

/// The report on a replacement made on line `line_no`.
pub open spec fn edit_text(path: Seq<char>, old: Seq<char>, new: Seq<char>, line_no: nat) -> Seq<char> {
    "edit "@ + path + " at line "@ + decimal(line_no) + ": "@ + head50(old) + " → "@ + head50(new)
}

/// The edit of `s` that replaces the one occurrence of `old` by `new`.
pub open spec fn edit_outcome_spec(path: Seq<char>, s: Seq<char>, old: Seq<char>, new: Seq<char>) -> (int, Seq<char>, Seq<char>) {
    let count = count_from(s, old, 0);
    if count == 0 {
        (0, "string not found in "@ + path, Seq::empty())
    } else if count > 1 {
        (1, ambiguous_text(path, s, old, count), Seq::empty())
    } else {
        let k = find_from(s, old, 0)->0;
        let line_no = line_holding(lines(s), old, 0);
        (2, edit_text(path, old, new, line_no as nat), s.subrange(0, k) + new + s.subrange(k + old.len(), s.len() as int))
    }
}

/// The edit's report can be made: for a replacement, the first 50 bytes of
/// `old` and of `new` end between characters; for an ambiguous `old`, the
/// previews are defined.
pub open spec fn edit_defined(s: Seq<char>, old: Seq<char>, new: Seq<char>) -> bool {
    let count = count_from(s, old, 0);
    &&& count == 1 ==> at_boundary(old, head_cut(old)) && at_boundary(new, head_cut(new))
    &&& count > 1 ==> previews_defined(s, old, 0, if count < 3 { count } else { 3 })
}

/// The kind, message and new content of an outcome.
pub open spec fn outcome_view(o: EditOutcome) -> (int, Seq<char>, Seq<char>) {
    match o {
        EditOutcome::NotFound(m) => (0, m@, Seq::empty()),
        EditOutcome::Ambiguous(m) => (1, m@, Seq::empty()),
        EditOutcome::Replaced { content, message } => (2, message@, content@),
    }
}

/// The bytes the window around the occurrence of `old` at character `abs`
/// spans.
fn window_bounds(content: &str, cs: &[char], old: &str, abs: usize) -> (r: (usize, usize))
    requires
        cs@ == content@,
        utf8_len(content@) <= usize::MAX,
        occurs_at(cs@, old@, abs as int),
    ensures
        r.0 == window_lo(utf8_len(content@.take(abs as int))),
        r.1 == window_hi(content@, utf8_len(content@.take(abs as int)), utf8_len(old@)),
        r.0 <= r.1 <= utf8_len(content@),
{
    let pre = string_from_range(cs, 0, abs);
    let ghost s = content@;
    proof {
        let rest = s.subrange(abs + old@.len(), s.len() as int);
        assert(s.subrange(abs as int, abs + old@.len()) == old@);
        assert(s =~= s.take(abs as int) + old@ + rest);
        lemma_utf8_concat(s.take(abs as int) + old@, rest);
        lemma_utf8_concat(s.take(abs as int), old@);
        assert(pre@ == s.take(abs as int));
    }
    let at = pre.as_str().len();
    let pb = old.len();
    let total = content.len();
    let lo: usize = if at < 40 { 0 } else { at - 40 };
    let hi: usize = if total - at - pb > 40 { at + pb + 40 } else { total };
    (lo, hi)
}

fn push_window(out: &mut String, content: &str, cs: &[char], p: &str, abs: usize)
    requires
        cs@ == content@,
        utf8_len(content@) <= usize::MAX,
        occurs_at(cs@, p@, abs as int),
        window_defined(content@, p@, abs as int),
    ensures
        final(out)@ == old(out)@ + window(content@, p@, abs as int),
{
    let (lo, hi) = window_bounds(content, cs, p, abs);
    push_str(out, "...");
    let w = byte_range(content, lo, hi);
    let wc = chars_of(w.as_str());
    let ghost start = out@;
    let mut i: usize = 0;
    while i < wc.len()
        invariant
            i <= wc@.len(),
            out@ == start + flatten_newlines(wc@.subrange(0, i as int)),
        decreases wc@.len() - i,
    {
        push_char(out, if wc[i] == '\n' { ' ' } else { wc[i] });
        i = i + 1;
        assert(out@ =~= start + flatten_newlines(wc@.subrange(0, i as int)));
    }
    push_str(out, "...");
    assert(wc@.subrange(0, wc@.len() as int) =~= wc@);
    assert(out@ =~= old(out)@ + window(content@, p@, abs as int));
}

fn ambiguous_report(path: &str, content: &str, cs: &[char], old: &str, ps: &[char], count: usize) -> (m: String)
    requires
        cs@ == content@,
        ps@ == old@,
        count == count_from(cs@, ps@, 0),
        count > 1,
        cs@.len() < usize::MAX,
        utf8_len(content@) <= usize::MAX,
        previews_defined(cs@, ps@, 0, if count < 3 { count as nat } else { 3 }),
    ensures
        m@ == ambiguous_text(path@, cs@, ps@, count as nat),
{
    let mut m = owned("found ");
    push_decimal(&mut m, count as u64);
    push_str(&mut m, " occurrences in ");
    push_str(&mut m, path);
    push_str(&mut m, ". Use a more unique string. First matches:\n");
    let ghost head = m@;
    let n: usize = if count < 3 { count } else { 3 };
    let mut search_start: usize = 0;
    let mut shown: usize = 0;
    let mut it: usize = 0;
    let ghost mut acc: Seq<Seq<char>> = Seq::empty();
    while it < n
        invariant
            cs@ == content@,
            ps@ == old@,
            it <= n,
            search_start <= cs@.len() + 1,
            acc + previews(cs@, ps@, search_start as int, (n - it) as nat) == previews(cs@, ps@, 0, n as nat),
            previews_defined(cs@, ps@, search_start as int, (n - it) as nat),
            m@ == head + join(acc, "\n"@),
            shown == acc.len(),
            shown <= it,
            cs@.len() < usize::MAX,
            utf8_len(content@) <= usize::MAX,
        decreases n - it,
    {
        match find_from_pos(cs, ps, search_start) {
            Some(abs) => {
                proof {
                    let c = choose|c: int| first_from(cs@, ps@, search_start as int, c);
                    assert(occurs_at(cs@, ps@, abs as int));
                }
                if shown > 0 {
                    push_str(&mut m, "\n");
                }
                push_window(&mut m, content, cs, old, abs);
                proof {
                    let w = window(cs@, ps@, abs as int);
                    assert(acc.push(w).drop_last() =~= acc);
                    assert(m@ =~= head + join(acc.push(w), "\n"@));
                    assert(acc.push(w) + previews(cs@, ps@, abs + 1, (n - it - 1) as nat) =~= acc + previews(cs@, ps@, search_start as int, (n - it) as nat));
                    acc = acc.push(w);
                }
                shown = shown + 1;
                search_start = abs + 1;
            },
            None => {},
        }
        it = it + 1;
    }
    assert(acc + Seq::<Seq<char>>::empty() =~= acc);
    m
}

/// Whether the previews of an `old` that occurs `count` times, more than
/// once, can be made.
fn previews_are_defined(content: &str, cs: &[char], old: &str, ps: &[char], count: usize) -> (r: bool)
    requires
        cs@ == content@,
        ps@ == old@,
        cs@.len() < usize::MAX,
        utf8_len(content@) <= usize::MAX,
    ensures
        r == previews_defined(cs@, ps@, 0, if count < 3 { count as nat } else { 3 }),
{
    let n: usize = if count < 3 { count } else { 3 };
    let mut search_start: usize = 0;
    let mut it: usize = 0;
    while it < n
        invariant
            cs@ == content@,
            ps@ == old@,
            it <= n,
            search_start <= cs@.len() + 1,
            n == if count < 3 { count } else { 3 },
            previews_defined(cs@, ps@, 0, n as nat) == previews_defined(cs@, ps@, search_start as int, (n - it) as nat),
            cs@.len() < usize::MAX,
            utf8_len(content@) <= usize::MAX,
        decreases n - it,
    {
        match find_from_pos(cs, ps, search_start) {
            Some(abs) => {
                proof {
                    let c = choose|c: int| first_from(cs@, ps@, search_start as int, c);
                    assert(occurs_at(cs@, ps@, abs as int));
                }
                let (lo, hi) = window_bounds(content, cs, old, abs);
                let ghost rest = (n - it - 1) as nat;
                assert(previews_defined(cs@, ps@, search_start as int, (n - it) as nat) == {
                    &&& window_defined(cs@, ps@, abs as int)
                    &&& (n - it) as nat > 1 ==> abs < cs@.len() && (cs@[abs as int] as u32) < 128
                    &&& previews_defined(cs@, ps@, abs + 1, rest)
                });
                let lo_ok = content.is_char_boundary(lo);
                let hi_ok = content.is_char_boundary(hi);
                proof {
                    assert(content.spec_bytes() == vstd::utf8::encode_utf8(content@));
                    assert(lo_ok == at_boundary(cs@, lo as int));
                    assert(hi_ok == at_boundary(cs@, hi as int));
                }
                if !lo_ok || !hi_ok {
                    assert(!window_defined(cs@, ps@, abs as int));
                    return false;
                }
                if n - it > 1 {
                    if abs >= cs.len() {
                        return false;
                    }
                    let c = cs[abs];
                    if (c as u32) >= 128 {
                        assert(!((cs@[abs as int] as u32) < 128));
                        return false;
                    }
                }
                search_start = abs + 1;
            },
            None => {},
        }
        it = it + 1;
    }
    true
}

fn first_line_holding(ls: &Vec<String>, ps: &[char]) -> (line_no: usize)
    ensures
        line_no == line_holding(ls@.map_values(|l: String| l@), ps@, 0),
{
    let ghost lv = ls@.map_values(|l: String| l@);
    let mut i: usize = 0;
    while i < ls.len()
        invariant
            i <= ls@.len(),
            lv == ls@.map_values(|l: String| l@),
            line_holding(lv, ps@, 0) == line_holding(lv, ps@, i as int),
        decreases ls@.len() - i,
    {
        let lc = chars_of(ls[i].as_str());
        assert(lv[i as int] == ls@[i as int]@);
        if find_from_pos(lc.as_slice(), ps, 0).is_some() {
            return i + 1;
        }
        i = i + 1;
    }
    0
}

/// The text of at most the first 50 bytes of `s`.
fn head(s: &str) -> (r: String)
    requires
        at_boundary(s@, head_cut(s@)),
        utf8_len(s@) <= usize::MAX,
    ensures
        r@ == head50(s@),
{
    proof {
        vstd::utf8::encode_utf8_valid_utf8(s@);
    }
    let cut: usize = if s.len() < 50 { s.len() } else { 50 };
    byte_range(s, 0, cut)
}

fn edit_report(path: &str, old: &str, new: &str, line_no: usize) -> (msg: String)
    requires
        utf8_len(old@) <= usize::MAX,
        utf8_len(new@) <= usize::MAX,
        at_boundary(old@, head_cut(old@)),
        at_boundary(new@, head_cut(new@)),
    ensures
        msg@ == edit_text(path@, old@, new@, line_no as nat),
{
    let mut msg = owned("edit ");
    push_str(&mut msg, path);
    push_str(&mut msg, " at line ");
    push_decimal(&mut msg, line_no as u64);
    push_str(&mut msg, ": ");
    push_str(&mut msg, head(old).as_str());
    push_str(&mut msg, " → ");
    push_str(&mut msg, head(new).as_str());
    msg
}

/// Works out the edit that replaces `old` by `new` in a file's content: it
/// must occur exactly once; otherwise the error says it was not found, or
/// how often it occurs and where the first three are.
pub fn plan_edit(path: &str, content: &str, old: &str, new: &str) -> (r: EditOutcome)
    requires
        content@.len() < usize::MAX,
        utf8_len(content@) <= usize::MAX,
        utf8_len(old@) <= usize::MAX,
        utf8_len(new@) <= usize::MAX,
        edit_defined(content@, old@, new@),
    ensures
        outcome_view(r) == edit_outcome_spec(path@, content@, old@, new@),
{
    let cs = chars_of(content);
    let ps = chars_of(old);
    let count = count_occurrences(cs.as_slice(), ps.as_slice());
    if count == 0 {
        let mut m = owned("string not found in ");
        push_str(&mut m, path);
        return EditOutcome::NotFound(m);
    }
    if count > 1 {
        return EditOutcome::Ambiguous(ambiguous_report(path, content, cs.as_slice(), old, ps.as_slice(), count));
    }
    let k = match find_from_pos(cs.as_slice(), ps.as_slice(), 0) {
        Some(k) => k,
        None => {
            proof {
                lemma_count_positive_found(cs@, ps@, 0);
            }
            0
        },
    };
    proof {
        let c = choose|c: int| first_from(cs@, ps@, 0, c);
        assert(occurs_at(cs@, ps@, k as int));
    }
    let mut nc = string_from_range(cs.as_slice(), 0, k);
    push_str(&mut nc, new);
    let tail = string_from_range(cs.as_slice(), k + ps.len(), cs.len());
    push_str(&mut nc, tail.as_str());
    let ls = lines_of(content);
    let line_no = first_line_holding(&ls, ps.as_slice());
    let msg = edit_report(path, old, new, line_no);
    EditOutcome::Replaced { content: nc, message: msg }
}

/// Whether `plan_edit` can make its report (`edit_defined`).
pub fn edit_is_defined(content: &str, old: &str, new: &str) -> (r: bool)
    requires
        content@.len() < usize::MAX,
        utf8_len(content@) <= usize::MAX,
        utf8_len(old@) <= usize::MAX,
        utf8_len(new@) <= usize::MAX,
    ensures
        r == edit_defined(content@, old@, new@),
{
    let cs = chars_of(content);
    let ps = chars_of(old);
    let count = count_occurrences(cs.as_slice(), ps.as_slice());
    if count == 1 {
        let oc: usize = if old.len() < 50 { old.len() } else { 50 };
        let nc: usize = if new.len() < 50 { new.len() } else { 50 };
        old.is_char_boundary(oc) && new.is_char_boundary(nc)
    } else if count > 1 {
        previews_are_defined(content, cs.as_slice(), old, ps.as_slice(), count)
    } else {
        true
    }
}

/// When `p` occurs at or after `i`, searching from `i` finds it.
pub proof fn lemma_count_positive_found(s: Seq<char>, p: Seq<char>, i: int)
    requires
        count_from(s, p, i) > 0,
    ensures
        find_from(s, p, i) is Some,
    decreases s.len() + 1 - i,
{
    if occurs_at(s, p, i) {
        assert(first_from(s, p, i, i));
    } else {
        lemma_count_positive_found(s, p, i + 1);
        let j = choose|j: int| #[trigger] first_from(s, p, i + 1, j);
        assert(first_from(s, p, i, j));
    }
}

} // verus!
