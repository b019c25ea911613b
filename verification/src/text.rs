//! Character-level helpers on strings: building, comparing, splitting
//! and decimal rendering, each with its meaning over `Seq<char>`.
use vstd::prelude::*;

verus! {

/// The characters of `s`, in order.
pub fn chars_of(s: &str) -> (r: Vec<char>)
    ensures
        r@ == s@,
{
    let mut out: Vec<char> = Vec::new();
    for c in it: s.chars()
        invariant
            out@ == it.history(),
    {
        out.push(c);
    }
    out
}

/// Appends one character (`String::push`).
#[verifier::external_body]
pub(crate) fn push_char(s: &mut String, c: char)
    ensures
        final(s)@ == old(s)@.push(c),
{
    s.push(c);
}

/// Appends all of `t` to `s`.
pub fn push_str(s: &mut String, t: &str)
    ensures
        final(s)@ == old(s)@ + t@,
{
    let ghost start = s@;
    for c in it: t.chars()
        invariant
            s@ == start + it.history(),
    {
        push_char(s, c);
    }
}

/// A new string holding exactly the characters of `cs`.
pub fn string_from_chars(cs: &[char]) -> (r: String)
    ensures
        r@ == cs@,
{
    let mut out = String::new();
    let mut i: usize = 0;
    while i < cs.len()
        invariant
            i <= cs@.len(),
            out@ == cs@.subrange(0, i as int),
        decreases cs@.len() - i,
    {
        push_char(&mut out, cs[i]);
        i = i + 1;
        assert(out@ =~= cs@.subrange(0, i as int));
    }
    assert(cs@.subrange(0, cs@.len() as int) =~= cs@);
    out
}

/// A copy of `s` as an owned string.
pub fn owned(s: &str) -> (r: String)
    ensures
        r@ == s@,
{
    s.to_owned()
}

/// Whether two strings hold the same characters.
pub fn same_text(a: &str, b: &str) -> (r: bool)
    ensures
        r == (a@ == b@),
{
    let x = chars_of(a);
    let y = chars_of(b);
    if x.len() != y.len() {
        return false;
    }
    let mut i: usize = 0;
    while i < x.len()
        invariant
            x@ == a@,
            y@ == b@,
            x@.len() == y@.len(),
            i <= x@.len(),
            forall|k: int| 0 <= k < i ==> x@[k] == y@[k],
        decreases x@.len() - i,
    {
        if x[i] != y[i] {
            return false;
        }
        i = i + 1;
    }
    assert(x@ =~= y@);
    true
}

/// The decimal digit for `d < 10`.
pub open spec fn digit_char(d: nat) -> char {
    if d == 0 { '0' } else if d == 1 { '1' } else if d == 2 { '2' } else if d == 3 { '3' }
    else if d == 4 { '4' } else if d == 5 { '5' } else if d == 6 { '6' } else if d == 7 { '7' }
    else if d == 8 { '8' } else { '9' }
}

/// The shortest decimal rendering of `n` (as `{}` formats an unsigned integer).
pub open spec fn decimal(n: nat) -> Seq<char>
    decreases n,
{
    if n < 10 {
        seq![digit_char(n)]
    } else {
        decimal(n / 10).push(digit_char(n % 10))
    }
}

fn digit(d: u64) -> (c: char)
    requires
        d < 10,
    ensures
        c == digit_char(d as nat),
{
    if d == 0 { '0' } else if d == 1 { '1' } else if d == 2 { '2' } else if d == 3 { '3' }
    else if d == 4 { '4' } else if d == 5 { '5' } else if d == 6 { '6' } else if d == 7 { '7' }
    else if d == 8 { '8' } else { '9' }
}

/// Appends the decimal rendering of `n`.
pub fn push_decimal(s: &mut String, n: u64)
    ensures
        final(s)@ == old(s)@ + decimal(n as nat),
    decreases n,
{
    if n < 10 {
        push_char(s, digit(n));
        assert(decimal(n as nat) =~= seq![digit_char(n as nat)]);
    } else {
        push_decimal(s, n / 10);
        push_char(s, digit(n % 10));
        assert(old(s)@ + decimal(n as nat) =~= old(s)@ + decimal((n / 10) as nat) + seq![digit_char((n % 10) as nat)]);
    }
}

/// The decimal rendering of `n`.
pub fn decimal_string(n: u64) -> (r: String)
    ensures
        r@ == decimal(n as nat),
{
    let mut s = String::new();
    push_decimal(&mut s, n);
    proof {
        assert(s@ =~= decimal(n as nat));
    }
    s
}

/// The rendering of a signed integer as `{}` formats it.
pub open spec fn signed_decimal(n: int) -> Seq<char> {
    if n < 0 {
        seq!['-'] + decimal((-n) as nat)
    } else {
        decimal(n as nat)
    }
}

/// Appends the rendering of a signed 32-bit integer.
pub fn push_signed(s: &mut String, n: i32)
    ensures
        final(s)@ == old(s)@ + signed_decimal(n as int),
{
    if n < 0 {
        push_char(s, '-');
        let m: u64 = (0i64 - (n as i64)) as u64;
        push_decimal(s, m);
        assert(final(s)@ =~= old(s)@ + signed_decimal(n as int)) by {
            assert(m as int == -(n as int));
        }
    } else {
        push_decimal(s, n as u64);
    }
}

} // verus!

verus! {

/// `i` is the position of the first `c` in `s`.
pub open spec fn is_first_of(s: Seq<char>, c: char, i: int) -> bool {
    &&& 0 <= i < s.len()
    &&& s[i] == c
    &&& forall|j: int| 0 <= j < i ==> s[j] != c
}

/// `s` cut around its first `c` (as `str::split_once` with a `char`).
pub open spec fn split_first(s: Seq<char>, c: char) -> Option<(Seq<char>, Seq<char>)> {
    if exists|i: int| is_first_of(s, c, i) {
        let i = choose|i: int| is_first_of(s, c, i);
        Some((s.subrange(0, i), s.subrange(i + 1, s.len() as int)))
    } else {
        None
    }
}

/// Cutting around the first `c` loses nothing: the parts with `c` between
/// them make up the text, and the first part holds no `c`; with no `c`
/// there is no cut.
pub proof fn law_split_first_rejoins(s: Seq<char>, c: char)
    ensures
        match split_first(s, c) {
            Some((a, b)) => s == a + seq![c] + b && !a.contains(c),
            None => !s.contains(c),
        },
{
    match split_first(s, c) {
        Some((a, b)) => {
            let i = choose|i: int| is_first_of(s, c, i);
            assert(s =~= a + seq![c] + b);
            assert forall|k: int| 0 <= k < a.len() implies a[k] != c by {
                assert(a[k] == s[k]);
            }
        },
        None => {
            assert forall|k: int| 0 <= k < s.len() implies s[k] != c by {
                if s[k] == c {
                    lemma_least_position(s, c, k);
                }
            }
        },
    }
}

proof fn lemma_least_position(s: Seq<char>, c: char, k: int)
    requires
        0 <= k < s.len(),
        s[k] == c,
    ensures
        exists|i: int| is_first_of(s, c, i),
    decreases k,
{
    if exists|j: int| 0 <= j < k && s[j] == c {
        let j = choose|j: int| 0 <= j < k && s[j] == c;
        lemma_least_position(s, c, j);
    } else {
        assert(is_first_of(s, c, k));
    }
}

/// There is only one first position.
pub proof fn lemma_first_unique(s: Seq<char>, c: char, i: int, k: int)
    requires
        is_first_of(s, c, i),
        is_first_of(s, c, k),
    ensures
        i == k,
{
    if i < k {
        assert(s[i] != c);
    } else if k < i {
        assert(s[k] != c);
    }
}

/// The position of the first `c` in `cs`, if any.
pub fn find_char(cs: &[char], c: char) -> (r: Option<usize>)
    ensures
        match r {
            Some(i) => is_first_of(cs@, c, i as int),
            None => forall|j: int| 0 <= j < cs@.len() ==> cs@[j] != c,
        },
{
    let mut i: usize = 0;
    while i < cs.len()
        invariant
            i <= cs@.len(),
            forall|j: int| 0 <= j < i ==> cs@[j] != c,
        decreases cs@.len() - i,
    {
        if cs[i] == c {
            return Some(i);
        }
        i = i + 1;
    }
    None
}

/// `s` cut around its first `c`.
pub fn split_once_char(s: &str, c: char) -> (r: Option<(String, String)>)
    ensures
        match r {
            Some((a, b)) => split_first(s@, c) == Some((a@, b@)),
            None => split_first(s@, c) is None,
        },
{
    let cs = chars_of(s);
    match find_char(cs.as_slice(), c) {
        Some(i) => {
            assert(is_first_of(cs@, c, i as int));
            assert(i < cs.len());
            let a = string_from_range(cs.as_slice(), 0, i);
            let b = string_from_range(cs.as_slice(), i + 1, cs.len());
            proof {
                let k = choose|k: int| is_first_of(s@, c, k);
                lemma_first_unique(s@, c, i as int, k);
            }
            Some((a, b))
        },
        None => {
            assert(!exists|i: int| is_first_of(s@, c, i));
            None
        },
    }
}

/// A new string holding `cs[lo..hi]`.
pub fn string_from_range(cs: &[char], lo: usize, hi: usize) -> (r: String)
    requires
        lo <= hi <= cs@.len(),
    ensures
        r@ == cs@.subrange(lo as int, hi as int),
{
    let mut out = String::new();
    let mut i: usize = lo;
    while i < hi
        invariant
            lo <= i <= hi <= cs@.len(),
            out@ == cs@.subrange(lo as int, i as int),
        decreases hi - i,
    {
        push_char(&mut out, cs[i]);
        i = i + 1;
        assert(out@ =~= cs@.subrange(lo as int, i as int));
    }
    out
}

/// The first `n` elements of `s`.
pub fn slice_to(s: &[char], n: usize) -> (r: Vec<char>)
    requires
        n <= s@.len(),
    ensures
        r@ == s@.subrange(0, n as int),
{
    let mut out: Vec<char> = Vec::new();
    let mut i: usize = 0;
    while i < n
        invariant
            i <= n <= s@.len(),
            out@ == s@.subrange(0, i as int),
        decreases n - i,
    {
        out.push(s[i]);
        i = i + 1;
        assert(out@ =~= s@.subrange(0, i as int));
    }
    out
}

/// The elements of `s` from `n` on.
pub fn slice_from(s: &[char], n: usize) -> (r: Vec<char>)
    requires
        n <= s@.len(),
    ensures
        r@ == s@.subrange(n as int, s@.len() as int),
{
    let mut out: Vec<char> = Vec::new();
    let mut i: usize = n;
    while i < s.len()
        invariant
            n <= i <= s@.len(),
            out@ == s@.subrange(n as int, i as int),
        decreases s@.len() - i,
    {
        out.push(s[i]);
        i = i + 1;
        assert(out@ =~= s@.subrange(n as int, i as int));
    }
    out
}

/// A copy of an optional string, viewed as characters.
pub open spec fn opt_text(o: Option<String>) -> Option<Seq<char>> {
    match o {
        Some(s) => Some(s@),
        None => None,
    }
}

/// A copy of an optional string.
pub fn clone_opt(o: &Option<String>) -> (r: Option<String>)
    ensures
        opt_text(r) == opt_text(*o),
{
    match o {
        Some(s) => Some(s.clone()),
        None => None,
    }
}

} // verus!

verus! {

/// Unicode white space (`char::is_whitespace`).
pub open spec fn is_space(c: char) -> bool {
    ||| ('\u{9}' <= c && c <= '\u{d}')
    ||| c == ' '
    ||| c == '\u{85}'
    ||| c == '\u{a0}'
    ||| c == '\u{1680}'
    ||| ('\u{2000}' <= c && c <= '\u{200a}')
    ||| c == '\u{2028}'
    ||| c == '\u{2029}'
    ||| c == '\u{202f}'
    ||| c == '\u{205f}'
    ||| c == '\u{3000}'
}

/// Whether `c` is white space.
pub fn is_space_char(c: char) -> (r: bool)
    ensures
        r == is_space(c),
{
    ('\u{9}' <= c && c <= '\u{d}') || c == ' ' || c == '\u{85}' || c == '\u{a0}' || c == '\u{1680}'
        || ('\u{2000}' <= c && c <= '\u{200a}') || c == '\u{2028}' || c == '\u{2029}' || c == '\u{202f}'
        || c == '\u{205f}' || c == '\u{3000}'
}

/// `lo..hi` is `s` without white space at either end (`str::trim`).
pub open spec fn trim_bounds(s: Seq<char>, lo: int, hi: int) -> bool {
    &&& 0 <= lo <= hi <= s.len()
    &&& forall|i: int| 0 <= i < lo ==> is_space(#[trigger] s[i])
    &&& forall|i: int| hi <= i < s.len() ==> is_space(#[trigger] s[i])
    &&& lo < hi ==> !is_space(s[lo]) && !is_space(s[hi - 1])
}

/// `s` without white space at either end.
pub open spec fn trimmed(s: Seq<char>) -> Seq<char> {
    let (lo, hi) = choose|lo: int, hi: int| trim_bounds(s, lo, hi);
    s.subrange(lo, hi)
}

/// Any two trim cuts of `s` give the same text.
pub proof fn lemma_trim_unique(s: Seq<char>, lo1: int, hi1: int, lo2: int, hi2: int)
    requires
        trim_bounds(s, lo1, hi1),
        trim_bounds(s, lo2, hi2),
    ensures
        s.subrange(lo1, hi1) == s.subrange(lo2, hi2),
{
    if lo1 < hi1 {
        if lo2 < lo1 { assert(is_space(s[lo2])); }
        if lo1 < lo2 && lo1 < hi2 { assert(is_space(s[lo1])); }
        if hi2 > hi1 { assert(is_space(s[hi2 - 1])); }
        if hi1 > hi2 && hi1 - 1 >= lo2 { assert(is_space(s[hi1 - 1])); }
    }
    if lo2 < hi2 {
        if lo1 < lo2 { assert(is_space(s[lo1])); }
        if hi1 > hi2 { assert(is_space(s[hi1 - 1])); }
    }
    assert(s.subrange(lo1, hi1) =~= s.subrange(lo2, hi2));
}

/// Trimming a trimmed text changes nothing.
pub proof fn lemma_trimmed_twice(s: Seq<char>)
    requires
        exists|lo: int, hi: int| trim_bounds(s, lo, hi),
    ensures
        trimmed(trimmed(s)) == trimmed(s),
{
    let (lo, hi) = choose|lo: int, hi: int| trim_bounds(s, lo, hi);
    let t = s.subrange(lo, hi);
    assert(trim_bounds(t, 0, t.len() as int));
    let (l2, h2) = choose|l: int, h: int| trim_bounds(t, l, h);
    lemma_trim_unique(t, 0, t.len() as int, l2, h2);
    assert(t.subrange(0, t.len() as int) =~= t);
}

/// `cs` without white space at either end.
pub fn trim_chars(cs: &[char]) -> (r: Vec<char>)
    ensures
        r@ == trimmed(cs@),
        exists|lo: int, hi: int| trim_bounds(cs@, lo, hi),
{
    let mut lo: usize = 0;
    while lo < cs.len() && is_space_char(cs[lo])
        invariant
            lo <= cs@.len(),
            forall|i: int| 0 <= i < lo ==> is_space(#[trigger] cs@[i]),
        decreases cs@.len() - lo,
    {
        lo = lo + 1;
    }
    let mut hi: usize = cs.len();
    while hi > lo && is_space_char(cs[hi - 1])
        invariant
            lo <= hi <= cs@.len(),
            forall|i: int| hi <= i < cs@.len() ==> is_space(#[trigger] cs@[i]),
        decreases hi - lo,
    {
        hi = hi - 1;
    }
    proof {
        assert(trim_bounds(cs@, lo as int, hi as int));
        let (l2, h2) = choose|l: int, h: int| trim_bounds(cs@, l, h);
        lemma_trim_unique(cs@, lo as int, hi as int, l2, h2);
    }
    let mut out: Vec<char> = Vec::new();
    let mut i: usize = lo;
    while i < hi
        invariant
            lo <= i <= hi <= cs@.len(),
            out@ == cs@.subrange(lo as int, i as int),
        decreases hi - i,
    {
        out.push(cs[i]);
        i = i + 1;
        assert(out@ =~= cs@.subrange(lo as int, i as int));
    }
    out
}

} // verus!

verus! {

/// `s` without one trailing carriage return.
pub open spec fn strip_cr(s: Seq<char>) -> Seq<char> {
    if s.len() > 0 && s.last() == '\r' { s.drop_last() } else { s }
}

/// The pieces of `s` between newlines, from position `from` on; the piece
/// being read so far is `cur`.
pub open spec fn pieces(s: Seq<char>) -> Seq<Seq<char>>
    decreases s.len(),
{
    if s.len() == 0 {
        seq![Seq::<char>::empty()]
    } else {
        let p = pieces(s.drop_last());
        if s.last() == '\n' {
            p.push(Seq::<char>::empty())
        } else {
            p.update(p.len() - 1, p.last().push(s.last()))
        }
    }
}

/// The lines of `s` (`str::lines`): the pieces between newlines, each
/// without a trailing carriage return, with no line after a final newline
/// and none at all for empty text.
pub open spec fn lines(s: Seq<char>) -> Seq<Seq<char>> {
    let p = pieces(s);
    let q = if p.last().len() == 0 { p.drop_last() } else { p };
    q.map_values(|l: Seq<char>| strip_cr(l))
}

/// `pieces` always has at least one piece.
pub proof fn lemma_pieces_nonempty(s: Seq<char>)
    ensures
        pieces(s).len() >= 1,
    decreases s.len(),
{
    if s.len() > 0 {
        lemma_pieces_nonempty(s.drop_last());
    }
}

/// The lines of `s`.
pub fn lines_of(s: &str) -> (r: Vec<String>)
    ensures
        r@.map_values(|l: String| l@) == lines(s@),
{
    let cs = chars_of(s);
    let mut done: Vec<String> = Vec::new();
    let mut cur: Vec<char> = Vec::new();
    let mut i: usize = 0;
    let n = cs.len();
    while i < n
        invariant
            n == cs@.len(),
            cs@ == s@,
            i <= n,
            pieces(cs@.subrange(0, i as int)) == done@.map_values(|l: String| l@).push(cur@),
        decreases n - i,
    {
        proof {
            assert(cs@.subrange(0, i + 1).drop_last() =~= cs@.subrange(0, i as int));
            lemma_pieces_nonempty(cs@.subrange(0, i as int));
        }
        if cs[i] == '\n' {
            let piece = string_from_chars(cur.as_slice());
            done.push(piece);
            cur = Vec::new();
            proof {
                assert(done@.map_values(|l: String| l@).push(cur@) =~= pieces(cs@.subrange(0, i as int)).push(Seq::<char>::empty()));
            }
        } else {
            let ghost before = cur@;
            cur.push(cs[i]);
            proof {
                let p = pieces(cs@.subrange(0, i as int));
                assert(done@.map_values(|l: String| l@).push(cur@) =~= p.update(p.len() - 1, p.last().push(cs@[i as int])));
            }
        }
        i = i + 1;
    }
    assert(cs@.subrange(0, n as int) =~= cs@);
    if cur.len() > 0 {
        done.push(string_from_chars(cur.as_slice()));
    }
    proof {
        let p = pieces(s@);
        let q = if p.last().len() == 0 { p.drop_last() } else { p };
        assert(done@.map_values(|l: String| l@) =~= q);
    }
    let mut out: Vec<String> = Vec::new();
    let mut k: usize = 0;
    while k < done.len()
        invariant
            k <= done@.len(),
            out@.len() == k,
            forall|j: int| 0 <= j < k ==> (#[trigger] out@[j])@ == strip_cr(done@[j]@),
        decreases done@.len() - k,
    {
        let l = chars_of(done[k].as_str());
        let m = l.len();
        let t = if m > 0 && l[m - 1] == '\r' { string_from_range(l.as_slice(), 0, m - 1) } else { done[k].clone() };
        proof {
            if m > 0 && l@[m - 1] == '\r' {
                assert(l@.subrange(0, m - 1) =~= l@.drop_last());
            }
        }
        out.push(t);
        k = k + 1;
    }
    proof {
        let p = pieces(s@);
        let q = if p.last().len() == 0 { p.drop_last() } else { p };
        assert(out@.map_values(|l: String| l@) =~= q.map_values(|l: Seq<char>| strip_cr(l)));
    }
    out
}

/// `n` right-aligned in a field of `width` characters (`{:>width$}`).
pub open spec fn pad_left(digits: Seq<char>, width: nat) -> Seq<char> {
    if digits.len() >= width {
        digits
    } else {
        Seq::new((width - digits.len()) as nat, |i: int| ' ') + digits
    }
}

/// Appends `n` right-aligned in a field of `width` characters.
pub fn push_padded(s: &mut String, n: u64, width: usize)
    ensures
        final(s)@ == old(s)@ + pad_left(decimal(n as nat), width as nat),
{
    let d = decimal_string(n);
    let len = chars_of(d.as_str()).len();
    let ghost start = s@;
    if len < width {
        let mut k: usize = 0;
        while k < width - len
            invariant
                len < width,
                k <= width - len,
                s@ == start + Seq::new(k as nat, |i: int| ' '),
            decreases width - len - k,
        {
            push_char(s, ' ');
            k = k + 1;
            assert(s@ =~= start + Seq::new(k as nat, |i: int| ' '));
        }
    }
    push_str(s, d.as_str());
    assert(s@ =~= start + pad_left(decimal(n as nat), width as nat));
}

} // verus!

verus! {

/// The length of the UTF-8 form of `s`, in bytes.
pub open spec fn utf8_len(s: Seq<char>) -> int {
    vstd::utf8::encode_utf8(s).len() as int
}

/// Whether byte `i` of the UTF-8 form of `s` starts a character or ends
/// the text.
pub open spec fn at_boundary(s: Seq<char>, i: int) -> bool {
    vstd::utf8::is_char_boundary(vstd::utf8::encode_utf8(s), i)
}

/// The character at which byte `k` of the UTF-8 form of `s` starts (or
/// the end, for the text's length).
pub open spec fn byte_index(s: Seq<char>, k: int) -> int {
    choose|i: int| 0 <= i <= s.len() && #[trigger] utf8_len(s.take(i)) == k
}

/// The UTF-8 form of two texts one after the other is theirs one after the
/// other.
pub proof fn lemma_utf8_concat(a: Seq<char>, b: Seq<char>)
    ensures
        vstd::utf8::encode_utf8(a + b) =~= vstd::utf8::encode_utf8(a) + vstd::utf8::encode_utf8(b),
    decreases a.len(),
{
    if a.len() == 0 {
        assert(a + b =~= b);
    } else {
        assert((a + b)[0] == a[0]);
        assert((a + b).drop_first() =~= a.drop_first() + b);
        lemma_utf8_concat(a.drop_first(), b);
    }
}

/// A character's UTF-8 form is its scalar's encoding, one to four bytes.
pub proof fn lemma_char_utf8(c: char)
    ensures
        vstd::utf8::encode_utf8(seq![c]) =~= vstd::utf8::encode_scalar(c as u32),
        1 <= utf8_len(seq![c]) <= 4,
{
    let e = Seq::<char>::empty();
    assert(seq![c].drop_first() =~= e);
    assert(seq![c][0] == c);
    assert(vstd::utf8::encode_utf8(e) =~= Seq::<u8>::empty());
    assert(vstd::utf8::encode_utf8(seq![c]) == vstd::utf8::encode_scalar(c as u32) + vstd::utf8::encode_utf8(e));
    vstd::utf8::char_is_scalar(c);
    let v = c as u32;
    if vstd::utf8::has_width_1_encoding(v) {
        assert(vstd::utf8::encode_scalar(v).len() == 1);
    } else if vstd::utf8::has_width_2_encoding(v) {
        assert(vstd::utf8::encode_scalar(v).len() == 2);
    } else if vstd::utf8::has_width_3_encoding(v) {
        assert(vstd::utf8::encode_scalar(v).len() == 3);
    } else {
        assert(vstd::utf8::encode_scalar(v).len() == 4);
    }
}

/// The first `i + 1` characters take the bytes of the first `i` and those
/// of character `i`.
pub proof fn lemma_utf8_take_step(s: Seq<char>, i: int)
    requires
        0 <= i < s.len(),
    ensures
        utf8_len(s.take(i + 1)) == utf8_len(s.take(i)) + utf8_len(seq![s[i]]),
{
    assert(s.take(i + 1) =~= s.take(i) + seq![s[i]]);
    lemma_utf8_concat(s.take(i), seq![s[i]]);
}

/// Longer prefixes take more bytes, at least one per character.
pub proof fn lemma_utf8_take_grows(s: Seq<char>, i: int, j: int)
    requires
        0 <= i <= j <= s.len(),
    ensures
        utf8_len(s.take(i)) + (j - i) <= utf8_len(s.take(j)),
    decreases j - i,
{
    if i < j {
        lemma_utf8_take_step(s, j - 1);
        lemma_char_utf8(s[j - 1]);
        lemma_utf8_take_grows(s, i, j - 1);
    }
}

/// The whole text is its longest prefix.
pub proof fn lemma_utf8_take_all(s: Seq<char>)
    ensures
        utf8_len(s.take(s.len() as int)) == utf8_len(s),
        utf8_len(s.take(0)) == 0,
        s.len() <= utf8_len(s),
{
    assert(s.take(s.len() as int) =~= s);
    assert(s.take(0) =~= Seq::<char>::empty());
    lemma_utf8_take_grows(s, 0, s.len() as int);
}

/// Whether every character of a text is ASCII.
pub open spec fn is_ascii_text(s: Seq<char>) -> bool {
    forall|i: int| 0 <= i < s.len() ==> (#[trigger] s[i] as u32) < 128
}

/// An ASCII text takes one byte per character, and each of its offsets
/// starts a character (or ends the text) at the same place.
pub proof fn lemma_ascii_bytes(s: Seq<char>)
    requires
        is_ascii_text(s),
    ensures
        utf8_len(s) == s.len(),
        forall|k: int| 0 <= k <= s.len() ==> #[trigger] byte_index(s, k) == k,
        forall|k: int| 0 <= k <= s.len() ==> #[trigger] at_boundary(s, k),
{
    lemma_ascii_len(s);
    assert forall|k: int| 0 <= k <= s.len() implies #[trigger] byte_index(s, k) == k && at_boundary(s, k) by {
        let t = s.take(k);
        assert forall|i: int| 0 <= i < t.len() implies (#[trigger] t[i] as u32) < 128 by {
            assert(t[i] == s[i]);
        }
        lemma_ascii_len(t);
        lemma_byte_index(s, k);
        assert(utf8_len(s.take(k)) == k);
    }
    assert forall|k: int| 0 <= k <= s.len() implies #[trigger] at_boundary(s, k) by {
        let t = s.take(k);
        assert forall|i: int| 0 <= i < t.len() implies (#[trigger] t[i] as u32) < 128 by {
            assert(t[i] == s[i]);
        }
        lemma_ascii_len(t);
        lemma_byte_index(s, k);
        assert(utf8_len(s.take(k)) == k);
    }
}

proof fn lemma_ascii_len(s: Seq<char>)
    requires
        is_ascii_text(s),
    ensures
        utf8_len(s) == s.len(),
    decreases s.len(),
{
    if s.len() > 0 {
        let rest = s.drop_first();
        assert(is_ascii_text(rest)) by {
            assert forall|i: int| 0 <= i < rest.len() implies (#[trigger] rest[i] as u32) < 128 by {
                assert(rest[i] == s[i + 1]);
            }
        }
        lemma_ascii_len(rest);
        assert((s[0] as u32) < 128);
        assert(vstd::utf8::encode_scalar(s[0] as u32).len() == 1);
    }
}

/// A part of a text takes no more bytes than the text.
pub proof fn lemma_utf8_subrange(s: Seq<char>, lo: int, hi: int)
    requires
        0 <= lo <= hi <= s.len(),
    ensures
        utf8_len(s.subrange(lo, hi)) <= utf8_len(s),
{
    assert(s =~= s.take(lo) + s.subrange(lo, hi) + s.skip(hi));
    lemma_utf8_concat(s.take(lo) + s.subrange(lo, hi), s.skip(hi));
    lemma_utf8_concat(s.take(lo), s.subrange(lo, hi));
}

/// Trimming a text leaves no more bytes.
pub proof fn lemma_utf8_trimmed(s: Seq<char>)
    requires
        exists|lo: int, hi: int| trim_bounds(s, lo, hi),
    ensures
        utf8_len(trimmed(s)) <= utf8_len(s),
{
    let (lo, hi) = choose|lo: int, hi: int| trim_bounds(s, lo, hi);
    lemma_utf8_subrange(s, lo, hi);
}

/// A byte offset is a character boundary exactly when some prefix of the
/// characters takes that many bytes.
pub proof fn lemma_boundary_prefix(s: Seq<char>, k: int)
    ensures
        at_boundary(s, k) <==> exists|i: int| 0 <= i <= s.len() && #[trigger] utf8_len(s.take(i)) == k,
    decreases s.len(),
{
    let b = vstd::utf8::encode_utf8(s);
    vstd::utf8::encode_utf8_valid_utf8(s);
    lemma_utf8_take_all(s);
    if k == 0 {
        assert(utf8_len(s.take(0)) == 0);
    } else if s.len() == 0 {
        assert forall|i: int| 0 <= i <= s.len() implies #[trigger] utf8_len(s.take(i)) != k by {
            assert(s.take(i) =~= Seq::<char>::empty());
        }
    } else {
        let t = s.drop_first();
        vstd::utf8::encode_utf8_first_scalar(s);
        let w = vstd::utf8::encode_scalar(s[0] as u32).len() as int;
        lemma_char_utf8(s[0]);
        assert(vstd::utf8::pop_first_scalar(b) =~= vstd::utf8::encode_utf8(t));
        lemma_boundary_prefix(t, k - w);
        lemma_utf8_take_all(t);
        if at_boundary(s, k) {
            assert(0 < k <= b.len());
            assert(at_boundary(t, k - w));
            let j = choose|j: int| 0 <= j <= t.len() && #[trigger] utf8_len(t.take(j)) == k - w;
            assert(s.take(j + 1) =~= seq![s[0]] + t.take(j));
            lemma_utf8_concat(seq![s[0]], t.take(j));
            assert(utf8_len(s.take(j + 1)) == k);
        }
        if exists|i: int| 0 <= i <= s.len() && #[trigger] utf8_len(s.take(i)) == k {
            let i = choose|i: int| 0 <= i <= s.len() && #[trigger] utf8_len(s.take(i)) == k;
            assert(i != 0);
            assert(s.take(i) =~= seq![s[0]] + t.take(i - 1));
            lemma_utf8_concat(seq![s[0]], t.take(i - 1));
            assert(utf8_len(t.take(i - 1)) == k - w);
            assert(at_boundary(t, k - w));
            lemma_utf8_take_grows(s, i, s.len() as int);
            assert(k <= b.len());
        }
    }
}

/// Only one prefix takes a given number of bytes.
pub proof fn lemma_byte_index(s: Seq<char>, i: int)
    requires
        0 <= i <= s.len(),
    ensures
        byte_index(s, utf8_len(s.take(i))) == i,
        at_boundary(s, utf8_len(s.take(i))),
{
    let k = utf8_len(s.take(i));
    lemma_boundary_prefix(s, k);
    let j = byte_index(s, k);
    if j < i {
        lemma_utf8_take_grows(s, j, i);
    } else if i < j {
        lemma_utf8_take_grows(s, i, j);
    }
}

/// The UTF-8 length of a character.
pub fn char_utf8_len(c: char) -> (w: usize)
    ensures
        w == utf8_len(seq![c]),
{
    proof {
        lemma_char_utf8(c);
    }
    let v = c as u32;
    if v <= 0x7F {
        1
    } else if v <= 0x7FF {
        2
    } else if v <= 0xFFFF {
        3
    } else {
        4
    }
}

/// The UTF-8 length of the first `i` characters.
pub fn utf8_prefix_len(cs: &[char], i: usize) -> (r: usize)
    requires
        i <= cs@.len(),
        utf8_len(cs@) <= usize::MAX,
    ensures
        r == utf8_len(cs@.take(i as int)),
{
    let mut sum: usize = 0;
    let mut j: usize = 0;
    proof {
        lemma_utf8_take_all(cs@);
    }
    while j < i
        invariant
            j <= i <= cs@.len(),
            sum == utf8_len(cs@.take(j as int)),
            utf8_len(cs@) <= usize::MAX,
            utf8_len(cs@.take(cs@.len() as int)) == utf8_len(cs@),
        decreases i - j,
    {
        proof {
            lemma_utf8_take_step(cs@, j as int);
            lemma_utf8_take_grows(cs@, j + 1, cs@.len() as int);
        }
        sum = sum + char_utf8_len(cs[j]);
        j = j + 1;
    }
    sum
}

/// The character at which byte `k` starts; none when `k` is not a
/// character boundary.
pub fn char_at_byte(cs: &[char], k: usize) -> (r: Option<usize>)
    requires
        utf8_len(cs@) <= usize::MAX,
    ensures
        match r {
            Some(i) => i <= cs@.len() && i == byte_index(cs@, k as int) && at_boundary(cs@, k as int)
                && utf8_len(cs@.take(i as int)) == k,
            None => !at_boundary(cs@, k as int),
        },
{
    let mut sum: usize = 0;
    let mut i: usize = 0;
    proof {
        lemma_utf8_take_all(cs@);
    }
    while i < cs.len() && sum < k
        invariant
            i <= cs@.len(),
            sum == utf8_len(cs@.take(i as int)),
            utf8_len(cs@) <= usize::MAX,
            utf8_len(cs@.take(cs@.len() as int)) == utf8_len(cs@),
            forall|j: int| 0 <= j < i ==> #[trigger] utf8_len(cs@.take(j)) < k,
        decreases cs@.len() - i,
    {
        proof {
            lemma_utf8_take_step(cs@, i as int);
            lemma_utf8_take_grows(cs@, i + 1, cs@.len() as int);
        }
        sum = sum + char_utf8_len(cs[i]);
        i = i + 1;
    }
    proof {
        lemma_boundary_prefix(cs@, k as int);
    }
    if sum == k {
        proof {
            lemma_byte_index(cs@, i as int);
        }
        Some(i)
    } else {
        proof {
            assert forall|j: int| 0 <= j <= cs@.len() implies #[trigger] utf8_len(cs@.take(j)) != k by {
                if j >= i {
                    lemma_utf8_take_grows(cs@, i as int, j);
                }
            }
        }
        None
    }
}

/// The text of bytes `lo..hi` of the UTF-8 form of `s`.
pub open spec fn byte_range_text(s: Seq<char>, lo: int, hi: int) -> Seq<char> {
    vstd::utf8::decode_utf8(vstd::utf8::encode_utf8(s).subrange(lo, hi))
}

/// A character boundary before a boundary `hi` is one of the first `hi`
/// bytes too.
pub proof fn lemma_prefix_boundary(b: Seq<u8>, lo: int, hi: int)
    requires
        vstd::utf8::valid_utf8(b),
        vstd::utf8::is_char_boundary(b, lo),
        vstd::utf8::is_char_boundary(b, hi),
        0 <= lo <= hi <= b.len(),
    ensures
        vstd::utf8::valid_utf8(b.subrange(0, hi)),
        vstd::utf8::is_char_boundary(b.subrange(0, hi), lo),
{
    vstd::utf8::valid_utf8_split(b, hi);
    let pre = b.subrange(0, hi);
    if lo == hi {
        vstd::utf8::is_char_boundary_start_end_of_seq(pre);
    } else if lo > 0 {
        vstd::utf8::is_char_boundary_iff_not_is_continuation_byte(b, lo);
        vstd::utf8::is_char_boundary_iff_not_is_continuation_byte(pre, lo);
        assert(pre[lo] == b[lo]);
    }
}

/// The text of bytes `lo..hi` of `s`.
pub fn byte_range(s: &str, lo: usize, hi: usize) -> (r: String)
    requires
        lo <= hi <= utf8_len(s@),
        at_boundary(s@, lo as int),
        at_boundary(s@, hi as int),
    ensures
        r@ == byte_range_text(s@, lo as int, hi as int),
{
    proof {
        vstd::utf8::encode_utf8_valid_utf8(s@);
        lemma_prefix_boundary(vstd::utf8::encode_utf8(s@), lo as int, hi as int);
    }
    let (pre, _) = s.split_at(hi);
    let (_, win) = pre.split_at(lo);
    proof {
        vstd::utf8::encode_utf8_decode_utf8(win@);
        assert(vstd::utf8::encode_utf8(win@) =~= vstd::utf8::encode_utf8(s@).subrange(lo as int, hi as int));
    }
    owned(win)
}

} // verus!
