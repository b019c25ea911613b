//! A small map from names to values that keeps the order in which names
//! were first inserted.
use vstd::prelude::*;
use crate::text::same_text;

verus! {

/// The value stored under `name`: the first entry with that name.
pub open spec fn lookup<V>(entries: Seq<(String, V)>, name: Seq<char>) -> Option<V>
    decreases entries.len(),
{
    if entries.len() == 0 {
        None
    } else if entries[0].0@ == name {
        Some(entries[0].1)
    } else {
        lookup(entries.drop_first(), name)
    }
}

/// The names in `entries`, in order.
pub open spec fn names_of<V>(entries: Seq<(String, V)>) -> Seq<Seq<char>> {
    entries.map_values(|e: (String, V)| e.0@)
}

/// A map from names to values, in insertion order.
#[derive(Debug, Clone)]
pub struct StringMap<V> {
    entries: Vec<(String, V)>,
}

impl<V> StringMap<V> {
    /// The entries, in insertion order.
    pub closed spec fn entries(&self) -> Seq<(String, V)> {
        self.entries@
    }

    /// The value stored under `name`, if any.
    pub open spec fn get_spec(&self, name: Seq<char>) -> Option<V> {
        lookup(self.entries(), name)
    }

    /// An empty map.
    pub fn new() -> (r: Self)
        ensures
            r.entries().len() == 0,
            forall|n: Seq<char>| #[trigger] r.get_spec(n) is None,
    {
        StringMap { entries: Vec::new() }
    }

    /// The number of entries.
    pub fn len(&self) -> (r: usize)
        ensures
            r == self.entries().len(),
    {
        self.entries.len()
    }

    /// The entries, in insertion order.
    pub fn entries_slice(&self) -> (r: &[(String, V)])
        ensures
            r@ == self.entries(),
    {
        self.entries.as_slice()
    }

    /// Whether the map has no entry.
    pub fn is_empty(&self) -> (r: bool)
        ensures
            r == (self.entries().len() == 0),
    {
        self.entries.len() == 0
    }

    /// The index of the first entry named `name`.
    fn position(&self, name: &str) -> (r: Option<usize>)
        ensures
            match r {
                Some(i) => i < self.entries().len() && self.entries()[i as int].0@ == name@
                    && forall|j: int| 0 <= j < i ==> self.entries()[j].0@ != name@,
                None => forall|j: int| 0 <= j < self.entries().len() ==> self.entries()[j].0@ != name@,
            },
    {
        let mut i: usize = 0;
        while i < self.entries.len()
            invariant
                i <= self.entries@.len(),
                forall|j: int| 0 <= j < i ==> self.entries@[j].0@ != name@,
            decreases self.entries@.len() - i,
        {
            if same_text(self.entries[i].0.as_str(), name) {
                return Some(i);
            }
            i = i + 1;
        }
        None
    }

    /// The value stored under `name`, if any.
    pub fn get(&self, name: &str) -> (r: Option<&V>)
        ensures
            match r {
                Some(v) => self.get_spec(name@) == Some(*v),
                None => self.get_spec(name@) is None,
            },
    {
        let r = self.position(name);
        proof {
            lemma_lookup_position(self.entries(), name@);
        }
        match r {
            Some(i) => Some(&self.entries[i].1),
            None => None,
        }
    }

    /// Stores `value` under `name`, replacing what was stored there.
    pub fn insert(&mut self, name: String, value: V)
        ensures
            final(self).get_spec(name@) == Some(value),
            forall|n: Seq<char>| n != name@ ==> #[trigger] final(self).get_spec(n) == old(self).get_spec(n),
            names_of(final(self).entries()).to_set() == names_of(old(self).entries()).to_set().insert(name@),
    {
        let p = self.position(name.as_str());
        let ghost old_entries = self.entries@;
        let ghost key = name@;
        match p {
            Some(i) => {
                self.entries.set(i, (name, value));
            },
            None => {
                self.entries.push((name, value));
            },
        }
        proof {
            match p {
                Some(i) => lemma_replace_at(old_entries, i as int, self.entries@, key),
                None => {
                    assert(self.entries@.subrange(0, old_entries.len() as int) =~= old_entries);
                    lemma_push_new(old_entries, self.entries@, key);
                },
            }
        }
    }
}

/// Replacing the first entry named `key` keeps every other name's value
/// and the set of names.
proof fn lemma_replace_at<V>(old_e: Seq<(String, V)>, i: int, new_e: Seq<(String, V)>, key: Seq<char>)
    requires
        0 <= i < old_e.len(),
        old_e[i].0@ == key,
        forall|j: int| 0 <= j < i ==> old_e[j].0@ != key,
        new_e == old_e.update(i, new_e[i]),
        new_e[i].0@ == key,
    ensures
        lookup(new_e, key) == Some(new_e[i].1),
        forall|n: Seq<char>| n != key ==> #[trigger] lookup(new_e, n) == lookup(old_e, n),
        names_of(new_e).to_set() == names_of(old_e).to_set().insert(key),
{
    lemma_lookup_position(new_e, key);
    assert forall|n: Seq<char>| n != key implies #[trigger] lookup(new_e, n) == lookup(old_e, n) by {
        lemma_lookup_congruent(old_e, new_e, n);
    }
    assert(names_of(new_e) =~= names_of(old_e));
    assert(names_of(old_e)[i] == key);
    assert(names_of(old_e).to_set().contains(key));
    assert(names_of(new_e).to_set() =~= names_of(old_e).to_set().insert(key));
}

/// Appending an entry under a new name keeps every other name's value.
proof fn lemma_push_new<V>(old_e: Seq<(String, V)>, new_e: Seq<(String, V)>, key: Seq<char>)
    requires
        forall|j: int| 0 <= j < old_e.len() ==> old_e[j].0@ != key,
        new_e.len() == old_e.len() + 1,
        new_e.subrange(0, old_e.len() as int) == old_e,
        new_e[old_e.len() as int].0@ == key,
    ensures
        lookup(new_e, key) == Some(new_e[old_e.len() as int].1),
        forall|n: Seq<char>| n != key ==> #[trigger] lookup(new_e, n) == lookup(old_e, n),
        names_of(new_e).to_set() == names_of(old_e).to_set().insert(key),
{
    assert forall|j: int| 0 <= j < old_e.len() implies new_e[j] == old_e[j] by {
        assert(new_e.subrange(0, old_e.len() as int)[j] == new_e[j]);
    }
    lemma_lookup_position(new_e, key);
    assert forall|n: Seq<char>| n != key implies #[trigger] lookup(new_e, n) == lookup(old_e, n) by {
        lemma_lookup_position(old_e, n);
        lemma_lookup_position(new_e, n);
        if exists|j: int| 0 <= j < old_e.len() && old_e[j].0@ == n {
            lemma_first_match_exists(old_e, n);
        }
    }
    assert(names_of(new_e) =~= names_of(old_e).push(key));
    assert(names_of(new_e).to_set() =~= names_of(old_e).to_set().insert(key)) by {
        assert forall|x: Seq<char>| names_of(new_e).to_set().contains(x) <==> names_of(old_e).to_set().insert(key).contains(x) by {
            if names_of(old_e).to_set().contains(x) {
                let j = choose|j: int| 0 <= j < names_of(old_e).len() && names_of(old_e)[j] == x;
                assert(names_of(new_e)[j] == x);
            }
            if x == key {
                assert(names_of(new_e)[old_e.len() as int] == x);
            }
        }
    }
}

/// Two entry lists that agree on where `n` occurs and what it maps to
/// there give the same lookup of `n`.
proof fn lemma_lookup_congruent<V>(e1: Seq<(String, V)>, e2: Seq<(String, V)>, n: Seq<char>)
    requires
        e1.len() == e2.len(),
        forall|j: int| 0 <= j < e1.len() ==> ((e1[j].0@ == n) == (e2[j].0@ == n)),
        forall|j: int| 0 <= j < e1.len() && e1[j].0@ == n ==> e1[j].1 == e2[j].1,
    ensures
        lookup(e1, n) == lookup(e2, n),
    decreases e1.len(),
{
    if e1.len() > 0 {
        assert forall|j: int| 0 <= j < e1.len() - 1 implies ((e1.drop_first()[j].0@ == n) == (e2.drop_first()[j].0@ == n)) by {
            assert(e1.drop_first()[j] == e1[j + 1]);
            assert(e2.drop_first()[j] == e2[j + 1]);
        }
        lemma_lookup_congruent(e1.drop_first(), e2.drop_first(), n);
    }
}

/// `lookup` finds the first entry with the name.
pub proof fn lemma_lookup_position<V>(entries: Seq<(String, V)>, name: Seq<char>)
    ensures
        forall|i: int| 0 <= i < entries.len() && entries[i].0@ == name
            && (forall|j: int| 0 <= j < i ==> entries[j].0@ != name)
            ==> lookup(entries, name) == Some(entries[i].1),
        (forall|j: int| 0 <= j < entries.len() ==> entries[j].0@ != name) ==> lookup(entries, name) is None,
    decreases entries.len(),
{
    if entries.len() > 0 {
        lemma_lookup_position(entries.drop_first(), name);
        assert forall|i: int| 0 <= i < entries.len() && entries[i].0@ == name
            && (forall|j: int| 0 <= j < i ==> entries[j].0@ != name)
            implies lookup(entries, name) == Some(entries[i].1) by {
            if i > 0 {
                assert(entries.drop_first()[i - 1] == entries[i]);
                assert forall|j: int| 0 <= j < i - 1 implies entries.drop_first()[j].0@ != name by {
                    assert(entries.drop_first()[j] == entries[j + 1]);
                }
            }
        }
        if forall|j: int| 0 <= j < entries.len() ==> entries[j].0@ != name {
            assert forall|j: int| 0 <= j < entries.drop_first().len() implies entries.drop_first()[j].0@ != name by {
                assert(entries.drop_first()[j] == entries[j + 1]);
            }
        }
    }
}

/// If some entry has the name, a first one does.
pub proof fn lemma_first_match_exists<V>(entries: Seq<(String, V)>, name: Seq<char>)
    requires
        exists|j: int| 0 <= j < entries.len() && entries[j].0@ == name,
    ensures
        exists|j: int| 0 <= j < entries.len() && entries[j].0@ == name
            && forall|m: int| 0 <= m < j ==> entries[m].0@ != name,
    decreases entries.len(),
{
    if entries[0].0@ == name {
        assert(0 < entries.len() && entries[0].0@ == name);
    } else {
        let j0 = choose|j: int| 0 <= j < entries.len() && entries[j].0@ == name;
        let t = entries.drop_first();
        assert(t[j0 - 1] == entries[j0]);
        lemma_first_match_exists(t, name);
        let k = choose|j: int| 0 <= j < t.len() && t[j].0@ == name && forall|m: int| 0 <= m < j ==> t[m].0@ != name;
        assert(entries[k + 1] == t[k]);
        assert forall|m: int| 0 <= m < k + 1 implies entries[m].0@ != name by {
            if m > 0 {
                assert(entries[m] == t[m - 1]);
            }
        }
    }
}

} // verus!
