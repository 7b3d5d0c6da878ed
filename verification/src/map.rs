//! A map keyed by text.
//!
//! The entries are kept in a vector in which no key occurs twice; the view is
//! the mathematical map from the key's characters to the view of its value.

use vstd::prelude::*;
use vstd::std_specs::cmp::PartialEqSpec;
use vstd::std_specs::cmp::PartialEqSpecImpl;

use crate::text::text_eq;

verus! {

/// A map from text to values of type `V`.
#[derive(Debug)]
pub struct TextMap<V> {
    entries: Vec<(String, V)>,
}

/// The map that a sequence of entries stands for: a later entry overrides an
/// earlier one with the same key.
pub closed spec fn entries_view<V: View>(s: Seq<(String, V)>) -> Map<Seq<char>, V::V>
    decreases s.len(),
{
    if s.len() == 0 {
        Map::empty()
    } else {
        entries_view(s.drop_last()).insert(s.last().0@, s.last().1@)
    }
}

/// Whether no key occurs twice among the entries.
pub closed spec fn distinct_keys<V>(s: Seq<(String, V)>) -> bool {
    forall|i: int, j: int| 0 <= i < j < s.len() ==> (#[trigger] s[i]).0@ != (#[trigger] s[j]).0@
}

/// The keys of the map are the keys of the entries.
proof fn lemma_entries_domain<V: View>(s: Seq<(String, V)>)
    ensures
        entries_view(s).dom().finite(),
        forall|k: Seq<char>| #[trigger]
            entries_view(s).contains_key(k) <==> exists|i: int|
                0 <= i < s.len() && (#[trigger] s[i]).0@ == k,
    decreases s.len(),
{
    if s.len() > 0 {
        let t = s.drop_last();
        lemma_entries_domain(t);
        assert forall|k: Seq<char>| #[trigger]
            entries_view(s).contains_key(k) <==> exists|i: int|
                0 <= i < s.len() && (#[trigger] s[i]).0@ == k by {
            if exists|i: int| 0 <= i < s.len() && (#[trigger] s[i]).0@ == k {
                let i = choose|i: int| 0 <= i < s.len() && (#[trigger] s[i]).0@ == k;
                if i < s.len() - 1 {
                    assert(t[i].0@ == k);
                }
            }
        }
    }
}

/// Entries with distinct keys keep them distinct without the last entry.
proof fn lemma_distinct_without_last<V>(s: Seq<(String, V)>)
    requires
        distinct_keys(s),
        s.len() > 0,
    ensures
        distinct_keys(s.drop_last()),
{
    let t = s.drop_last();
    assert forall|a: int, b: int| 0 <= a < b < t.len() implies (#[trigger] t[a]).0@ != (
    #[trigger] t[b]).0@ by {
        assert(t[a] == s[a] && t[b] == s[b]);
    }
}

/// Where the keys are distinct, the map holds each entry's value under its
/// key.
proof fn lemma_entries_value<V: View>(s: Seq<(String, V)>, i: int)
    requires
        distinct_keys(s),
        0 <= i < s.len(),
    ensures
        entries_view(s).contains_key(s[i].0@),
        entries_view(s)[s[i].0@] == s[i].1@,
    decreases s.len(),
{
    if i < s.len() - 1 {
        lemma_distinct_without_last(s);
        lemma_entries_value(s.drop_last(), i);
    }
}

/// Where the keys are distinct, the map has as many keys as there are
/// entries.
proof fn lemma_entries_len<V: View>(s: Seq<(String, V)>)
    requires
        distinct_keys(s),
    ensures
        entries_view(s).dom().finite(),
        entries_view(s).dom().len() == s.len(),
    decreases s.len(),
{
    lemma_entries_domain(s);
    if s.len() > 0 {
        let t = s.drop_last();
        lemma_distinct_without_last(s);
        lemma_entries_len(t);
        lemma_entries_domain(t);
        let k = s.last().0@;
        if entries_view(t).contains_key(k) {
            let i = choose|i: int| 0 <= i < t.len() && (#[trigger] t[i]).0@ == k;
            assert(s[i].0@ == s[s.len() - 1].0@);
        }
    }
}

/// An entry with a new key may be added at the end.
proof fn lemma_entries_push<V: View>(s: Seq<(String, V)>, e: (String, V))
    requires
        distinct_keys(s),
        !entries_view(s).contains_key(e.0@),
    ensures
        distinct_keys(s.push(e)),
        entries_view(s.push(e)) == entries_view(s).insert(e.0@, e.1@),
{
    lemma_entries_domain(s);
    let t = s.push(e);
    assert(t.drop_last() =~= s);
    assert forall|a: int, b: int| 0 <= a < b < t.len() implies (#[trigger] t[a]).0@ != (
    #[trigger] t[b]).0@ by {
        assert(t[a] == s[a]);
    }
}

/// An entry may be replaced by one with the same key.
proof fn lemma_entries_update<V: View>(s: Seq<(String, V)>, i: int, e: (String, V))
    requires
        distinct_keys(s),
        0 <= i < s.len(),
        e.0@ == s[i].0@,
    ensures
        distinct_keys(s.update(i, e)),
        entries_view(s.update(i, e)) == entries_view(s).insert(e.0@, e.1@),
    decreases s.len(),
{
    let u = s.update(i, e);
    let t = s.drop_last();
    assert forall|a: int, b: int| 0 <= a < b < u.len() implies (#[trigger] u[a]).0@ != (
    #[trigger] u[b]).0@ by {
        assert(u[a].0@ == s[a].0@ && u[b].0@ == s[b].0@);
    }
    lemma_distinct_without_last(s);
    if i == s.len() - 1 {
        assert(u.drop_last() =~= t);
    } else {
        lemma_entries_update(t, i, e);
        assert(u.drop_last() =~= t.update(i, e));
        assert(s[i].0@ != s[s.len() - 1].0@);
    }
}

impl<V: View> View for TextMap<V> {
    type V = Map<Seq<char>, V::V>;

    closed spec fn view(&self) -> Map<Seq<char>, V::V> {
        entries_view(self.entries@)
    }
}

impl<V> TextMap<V> {
    #[verifier::type_invariant]
    spec fn keys_are_distinct(self) -> bool {
        distinct_keys(self.entries@)
    }

    /// The entries as they are kept.
    pub closed spec fn kept(&self) -> Seq<(String, V)> {
        self.entries@
    }

    /// Where `key` stands among the entries.
    fn place_of(&self, key: &str) -> (r: Option<usize>)
        ensures
            match r {
                Some(i) => i < self.entries.len() && self.entries[i as int].0@ == key@,
                None => forall|j: int|
                    0 <= j < self.entries.len() ==> (#[trigger] self.entries[j]).0@ != key@,
            },
    {
        let mut i: usize = 0;
        while i < self.entries.len()
            invariant
                i <= self.entries.len(),
                forall|j: int| 0 <= j < i ==> (#[trigger] self.entries[j]).0@ != key@,
            decreases self.entries.len() - i,
        {
            if text_eq(self.entries[i].0.as_str(), key) {
                return Some(i);
            }
            i += 1;
        }
        None
    }
}

impl<V: View> TextMap<V> {
    /// The empty map.
    pub fn new() -> (r: Self)
        ensures
            r@ == Map::<Seq<char>, V::V>::empty(),
    {
        TextMap { entries: Vec::new() }
    }

    /// The number of keys.
    pub fn len(&self) -> (r: usize)
        ensures
            self@.dom().finite(),
            r == self@.len(),
    {
        proof {
            use_type_invariant(self);
            lemma_entries_len(self.entries@);
        }
        self.entries.len()
    }

    /// Where `key` stands among the entries.
    fn index_of(&self, key: &str) -> (r: Option<usize>)
        ensures
            match r {
                Some(i) => i < self.entries.len() && self.entries[i as int].0@ == key@,
                None => !self@.contains_key(key@),
            },
    {
        proof {
            lemma_entries_domain(self.entries@);
        }
        self.place_of(key)
    }

    /// Whether the map holds `key`.
    pub fn contains_key(&self, key: &str) -> (r: bool)
        ensures
            r == self@.contains_key(key@),
    {
        proof {
            lemma_entries_domain(self.entries@);
        }
        self.place_of(key).is_some()
    }

    /// The value under `key`.
    pub fn get(&self, key: &str) -> (r: Option<&V>)
        ensures
            match r {
                Some(v) => self@.contains_key(key@) && v@ == self@[key@],
                None => !self@.contains_key(key@),
            },
    {
        match self.index_of(key) {
            Some(i) => {
                proof {
                    use_type_invariant(self);
                    lemma_entries_value(self.entries@, i as int);
                }
                Some(&self.entries[i].1)
            },
            None => None,
        }
    }

    /// Puts `value` under `key` and hands back what stood there before.
    pub fn insert(&mut self, key: String, value: V) -> (r: Option<V>)
        ensures
            final(self)@ == old(self)@.insert(key@, value@),
            match r {
                Some(v) => old(self)@.contains_key(key@) && v@ == old(self)@[key@],
                None => !old(self)@.contains_key(key@),
            },
    {
        proof {
            use_type_invariant(&*self);
        }
        let found = self.index_of(key.as_str());
        let mut entries: Vec<(String, V)> = Vec::new();
        core::mem::swap(&mut self.entries, &mut entries);
        let mut entry = (key, value);
        let before = match found {
            Some(i) => {
                proof {
                    lemma_entries_value(entries@, i as int);
                    lemma_entries_update(entries@, i as int, entry);
                }
                core::mem::swap(&mut entries[i], &mut entry);
                Some(entry.1)
            },
            None => {
                proof {
                    lemma_entries_push(entries@, entry);
                }
                entries.push(entry);
                None
            },
        };
        core::mem::swap(&mut self.entries, &mut entries);
        before
    }

    /// The entries of the map: each key once, with its value.
    pub fn into_entries(self) -> (r: Vec<(String, V)>)
        ensures
            r@.len() == self@.len(),
            forall|i: int|
                0 <= i < r@.len() ==> self@.contains_key((#[trigger] r@[i]).0@) && self@[r@[i].0@]
                    == r@[i].1@,
            forall|k: Seq<char>|
                self@.contains_key(k) ==> exists|i: int|
                    0 <= i < r@.len() && (#[trigger] r@[i]).0@ == k,
            forall|i: int, j: int|
                0 <= i < j < r@.len() ==> (#[trigger] r@[i]).0@ != (#[trigger] r@[j]).0@,
    {
        proof {
            use_type_invariant(&self);
            lemma_entries_len(self.entries@);
            lemma_entries_domain(self.entries@);
            assert forall|i: int| 0 <= i < self.entries@.len() implies self@.contains_key(
                (#[trigger] self.entries@[i]).0@,
            ) && self@[self.entries@[i].0@] == self.entries@[i].1@ by {
                lemma_entries_value(self.entries@, i);
            }
        }
        self.entries
    }
}

/// Whether every entry of `a` has an entry of `b` with the same key and an
/// equal value.
pub open spec fn entries_within<V: PartialEqSpec>(
    a: Seq<(String, V)>,
    b: Seq<(String, V)>,
) -> bool {
    forall|i: int|
        0 <= i < a.len() ==> exists|j: int|
            0 <= j < b.len() && (#[trigger] b[j]).0@ == (#[trigger] a[i]).0@ && a[i].1.eq_spec(
                &b[j].1,
            )
}

impl<V: PartialEq> PartialEq for TextMap<V> {
    /// Whether the two maps hold the same keys with equal values.
    fn eq(&self, other: &Self) -> (r: bool) {
        proof {
            use_type_invariant(other);
        }
        if self.entries.len() != other.entries.len() {
            return false;
        }
        let mut i: usize = 0;
        while i < self.entries.len()
            invariant
                i <= self.entries.len(),
                distinct_keys(other.entries@),
                V::obeys_eq_spec() ==> entries_within(self.entries@.take(i as int), other.entries@),
            decreases self.entries.len() - i,
        {
            let ghost a = self.entries@;
            let ghost b = other.entries@;
            match other.place_of(self.entries[i].0.as_str()) {
                Some(j) => {
                    if !(self.entries[i].1 == other.entries[j].1) {
                        proof {
                            if V::obeys_eq_spec() && entries_within(a, b) {
                                // The one entry of `other` with this key is the unequal one.
                                let k = choose|k: int|
                                    0 <= k < b.len() && (#[trigger] b[k]).0@ == a[i as int].0@
                                        && a[i as int].1.eq_spec(&b[k].1);
                                assert(k == j);
                            }
                        }
                        return false;
                    }
                    proof {
                        if V::obeys_eq_spec() {
                            let head = a.take(i as int);
                            let more = a.take(i + 1);
                            assert forall|x: int| 0 <= x < more.len() implies exists|y: int|
                                0 <= y < b.len() && (#[trigger] b[y]).0@ == (#[trigger] more[x]).0@
                                    && more[x].1.eq_spec(&b[y].1) by {
                                if x < i {
                                    assert(more[x] == head[x]);
                                } else {
                                    assert(b[j as int].0@ == more[x].0@);
                                }
                            }
                        }
                    }
                },
                None => {
                    return false;
                },
            }
            i += 1;
        }
        assert(self.entries@.take(i as int) =~= self.entries@);
        true
    }
}

impl<V: PartialEq> PartialEqSpecImpl for TextMap<V> {
    open spec fn obeys_eq_spec() -> bool {
        V::obeys_eq_spec()
    }

    open spec fn eq_spec(&self, other: &Self) -> bool {
        self.kept().len() == other.kept().len() && entries_within(self.kept(), other.kept())
    }
}

impl<V: Eq> Eq for TextMap<V> {
}

} // verus!
