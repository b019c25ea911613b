//! Text in code-point order, and a stable sort of keyed items.
use vstd::prelude::*;
use crate::text::chars_of;

verus! {

/// `a` comes at or before `b` in code-point order (the order of `str`'s
/// comparison, since UTF-8 keeps it).
pub open spec fn lex_le(a: Seq<char>, b: Seq<char>) -> bool
    decreases a.len(),
{
    if a.len() == 0 {
        true
    } else if b.len() == 0 {
        false
    } else if a[0] != b[0] {
        a[0] < b[0]
    } else {
        lex_le(a.drop_first(), b.drop_first())
    }
}

/// Any two texts are ordered one way or the other.
pub proof fn lemma_lex_total(a: Seq<char>, b: Seq<char>)
    ensures
        lex_le(a, b) || lex_le(b, a),
    decreases a.len(),
{
    if a.len() > 0 && b.len() > 0 && a[0] == b[0] {
        lemma_lex_total(a.drop_first(), b.drop_first());
    }
}

/// The order is transitive.
pub proof fn lemma_lex_trans(a: Seq<char>, b: Seq<char>, c: Seq<char>)
    requires
        lex_le(a, b),
        lex_le(b, c),
    ensures
        lex_le(a, c),
    decreases a.len(),
{
    if a.len() > 0 && b.len() > 0 && c.len() > 0 && a[0] == b[0] && b[0] == c[0] {
        lemma_lex_trans(a.drop_first(), b.drop_first(), c.drop_first());
    }
}

/// Texts ordered both ways are equal.
pub proof fn lemma_lex_antisym(a: Seq<char>, b: Seq<char>)
    requires
        lex_le(a, b),
        lex_le(b, a),
    ensures
        a == b,
    decreases a.len(),
{
    if a.len() > 0 && b.len() > 0 {
        lemma_lex_antisym(a.drop_first(), b.drop_first());
        assert(a =~= seq![a[0]] + a.drop_first());
        assert(b =~= seq![b[0]] + b.drop_first());
    }
}

/// Whether `a` may come before `b`: ascending or, when `desc`, descending.
pub open spec fn in_order(a: Seq<char>, b: Seq<char>, desc: bool) -> bool {
    if desc { lex_le(b, a) } else { lex_le(a, b) }
}

/// Compares two texts in code-point order.
pub fn text_le(a: &str, b: &str) -> (r: bool)
    ensures
        r == lex_le(a@, b@),
{
    let x = chars_of(a);
    let y = chars_of(b);
    let mut i: usize = 0;
    assert(a@.subrange(0, a@.len() as int) =~= a@);
    assert(b@.subrange(0, b@.len() as int) =~= b@);
    while i < x.len() && i < y.len()
        invariant
            i <= x@.len(),
            i <= y@.len(),
            x@ == a@,
            y@ == b@,
            lex_le(a@, b@) == lex_le(a@.subrange(i as int, a@.len() as int), b@.subrange(i as int, b@.len() as int)),
        decreases x@.len() - i,
    {
        let ghost sa = a@.subrange(i as int, a@.len() as int);
        let ghost sb = b@.subrange(i as int, b@.len() as int);
        if x[i] != y[i] {
            assert(sa[0] == x@[i as int] && sb[0] == y@[i as int]);
            return x[i] < y[i];
        }
        assert(sa.drop_first() =~= a@.subrange(i + 1, a@.len() as int));
        assert(sb.drop_first() =~= b@.subrange(i + 1, b@.len() as int));
        i = i + 1;
    }
    i == x.len()
}

/// `out` is `input` sorted by key, stably: `p[i]` is where `out[i]` was.
pub open spec fn stably_sorted<T>(input: Seq<(String, T)>, out: Seq<(String, T)>, p: Seq<int>, desc: bool) -> bool {
    &&& out.len() == input.len()
    &&& p.len() == input.len()
    &&& forall|i: int| 0 <= i < out.len() ==> 0 <= #[trigger] p[i] < input.len() && out[i] == input[p[i]]
    &&& forall|i: int, j: int| 0 <= i < j < out.len() ==> p[i] != p[j]
    &&& forall|i: int, j: int| 0 <= i < j < out.len() ==> in_order(#[trigger] out[i].0@, #[trigger] out[j].0@, desc)
    &&& forall|i: int, j: int| 0 <= i < j < out.len() && (#[trigger] out[i]).0@ == (#[trigger] out[j]).0@ ==> p[i] < p[j]
}

/// Sorts keyed items by key, ascending or (when `desc`) descending; items
/// with equal keys keep their order.
pub fn stable_sort_by_key<T>(items: Vec<(String, T)>, desc: bool) -> (r: Vec<(String, T)>)
    ensures
        exists|p: Seq<int>| stably_sorted(items@, r@, p, desc),
{
    let ghost input = items@;
    let n = items.len();
    let mut rest = items;
    let mut out: Vec<(String, T)> = Vec::new();
    let ghost mut p: Seq<int> = Seq::empty();
    let mut k: usize = 0;
    while rest.len() > 0
        invariant
            n == input.len(),
            k + rest@.len() == n,
            rest@ == input.subrange(k as int, n as int),
            out@.len() == k,
            p.len() == k,
            forall|i: int| 0 <= i < k ==> 0 <= #[trigger] p[i] < k && out@[i] == input[p[i]],
            forall|i: int, j: int| 0 <= i < j < k ==> p[i] != p[j],
            forall|i: int, j: int| 0 <= i < j < k ==> in_order(#[trigger] out@[i].0@, #[trigger] out@[j].0@, desc),
            forall|i: int, j: int| 0 <= i < j < k && (#[trigger] out@[i]).0@ == (#[trigger] out@[j]).0@ ==> p[i] < p[j],
        decreases rest@.len(),
    {
        let item = rest.remove(0);
        assert(item == input[k as int]);
        let ghost key = item.0@;
        let mut pos: usize = 0;
        while pos < out.len()
            invariant
                pos <= out@.len(),
                out@.len() == k,
                key == item.0@,
                forall|m: int| 0 <= m < pos ==> in_order(#[trigger] out@[m].0@, key, desc),
            ensures
                pos <= out@.len(),
                forall|m: int| 0 <= m < pos ==> in_order(#[trigger] out@[m].0@, key, desc),
                pos < out@.len() ==> !in_order(out@[pos as int].0@, key, desc),
            decreases out@.len() - pos,
        {
            let before = if desc { text_le(item.0.as_str(), out[pos].0.as_str()) } else {
                text_le(out[pos].0.as_str(), item.0.as_str())
            };
            if !before {
                break;
            }
            pos = pos + 1;
        }
        proof {
            assert forall|m: int| pos <= m < k implies !in_order(#[trigger] out@[m].0@, key, desc) by {
                if in_order(out@[m].0@, key, desc) {
                    assert(in_order(out@[pos as int].0@, out@[m].0@, desc) || m == pos);
                    if m != pos {
                        if desc {
                            lemma_lex_trans(key, out@[m].0@, out@[pos as int].0@);
                        } else {
                            lemma_lex_trans(out@[pos as int].0@, out@[m].0@, key);
                        }
                    }
                }
            }
        }
        let ghost old_out = out@;
        let ghost old_p = p;
        out.insert(pos, item);
        proof {
            p = old_p.insert(pos as int, k as int);
            assert(out@ == old_out.insert(pos as int, item));
            assert forall|i: int| 0 <= i < k + 1 implies 0 <= #[trigger] p[i] < k + 1 && out@[i] == input[p[i]] by {
                if i < pos {
                    assert(p[i] == old_p[i]);
                } else if i > pos {
                    assert(p[i] == old_p[i - 1]);
                }
            }
            assert forall|i: int, j: int| 0 <= i < j < k + 1 implies p[i] != p[j] by {
                if i < pos && j > pos {
                    assert(p[j] == old_p[j - 1]);
                } else if j > pos && i > pos {
                    assert(p[j] == old_p[j - 1] && p[i] == old_p[i - 1]);
                } else if i == pos {
                    assert(p[j] == old_p[j - 1]);
                } else if j == pos {
                    assert(p[i] == old_p[i]);
                }
            }
            assert forall|i: int, j: int| 0 <= i < j < k + 1 implies in_order(
                #[trigger] out@[i].0@,
                #[trigger] out@[j].0@,
                desc,
            ) by {
                if i < pos && j > pos {
                    assert(out@[j] == old_out[j - 1]);
                    assert(in_order(old_out[i].0@, key, desc));
                    lemma_lex_total(old_out[j - 1].0@, key);
                    if desc {
                        lemma_lex_trans(old_out[j - 1].0@, key, old_out[i].0@);
                    } else {
                        lemma_lex_trans(old_out[i].0@, key, old_out[j - 1].0@);
                    }
                } else if i == pos {
                    assert(out@[j] == old_out[j - 1]);
                    assert(!in_order(old_out[j - 1].0@, key, desc));
                    lemma_lex_total(old_out[j - 1].0@, key);
                } else if j == pos {
                    assert(out@[i] == old_out[i]);
                } else if i > pos {
                    assert(out@[i] == old_out[i - 1] && out@[j] == old_out[j - 1]);
                }
            }
            assert forall|i: int, j: int| 0 <= i < j < k + 1 && (#[trigger] out@[i]).0@ == (#[trigger] out@[j]).0@ implies p[i]
                < p[j] by {
                if i < pos && j > pos {
                    assert(out@[j] == old_out[j - 1]);
                    assert(!in_order(old_out[j - 1].0@, key, desc));
                    assert(in_order(old_out[i].0@, key, desc));
                } else if i == pos {
                    assert(out@[j] == old_out[j - 1]);
                    assert(!in_order(old_out[j - 1].0@, key, desc));
                    assert(old_out[j - 1].0@ == key);
                    lemma_lex_total(key, key);
                } else if j == pos {
                    assert(out@[i] == old_out[i]);
                    assert(p[i] == old_p[i]);
                } else if i > pos {
                    assert(out@[i] == old_out[i - 1] && out@[j] == old_out[j - 1]);
                    assert(p[i] == old_p[i - 1] && p[j] == old_p[j - 1]);
                } else {
                    assert(p[i] == old_p[i] && p[j] == old_p[j]);
                }
            }
        }
        k = k + 1;
        assert(rest@ =~= input.subrange(k as int, n as int));
    }
    assert(stably_sorted(input, out@, p, desc));
    out
}

} // verus!
