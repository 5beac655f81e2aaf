//! A small map keyed by text, kept as a list of entries in which no key occurs twice.

use vstd::prelude::*;

use crate::text::same_text;

verus! {

/// A map from texts to values.
pub struct TextMap<V> {
    pub entries: Vec<(String, V)>,
}

/// No two entries share a key.
pub open spec fn keys_distinct<V>(e: Seq<(String, V)>) -> bool {
    forall|i: int, j: int| 0 <= i < j < e.len() ==> (#[trigger] e[i]).0@ != (#[trigger] e[j]).0@
}

/// Some entry has this key.
pub open spec fn has_key<V>(e: Seq<(String, V)>, k: Seq<char>) -> bool {
    exists|i: int| 0 <= i < e.len() && (#[trigger] e[i]).0@ == k
}

/// The map that a list of entries stands for.
pub open spec fn as_map<V>(e: Seq<(String, V)>) -> Map<Seq<char>, V> {
    Map::new(
        |k: Seq<char>| has_key(e, k),
        |k: Seq<char>| e[choose|i: int| 0 <= i < e.len() && (#[trigger] e[i]).0@ == k].1,
    )
}

impl<V> View for TextMap<V> {
    type V = Map<Seq<char>, V>;

    open spec fn view(&self) -> Map<Seq<char>, V> {
        as_map(self.entries@)
    }
}

/// An entry is what the map holds under its key.
pub proof fn lemma_entry<V>(e: Seq<(String, V)>, i: int)
    requires
        keys_distinct(e),
        0 <= i < e.len(),
    ensures
        as_map(e).contains_key(e[i].0@),
        as_map(e)[e[i].0@] == e[i].1,
{
    let k = e[i].0@;
    assert(e[i].0@ == k);
    let c = choose|c: int| 0 <= c < e.len() && (#[trigger] e[c]).0@ == k;
    assert(0 <= c < e.len() && e[c].0@ == k);
    if c < i {
        assert(e[c].0@ != e[i].0@);
    } else if i < c {
        assert(e[i].0@ != e[c].0@);
    }
}

proof fn lemma_removed<V>(e: Seq<(String, V)>, at: int)
    requires
        keys_distinct(e),
        0 <= at < e.len(),
    ensures
        keys_distinct(e.remove(at)),
        as_map(e.remove(at)) == as_map(e).remove(e[at].0@),
{
    let r = e.remove(at);
    let k0 = e[at].0@;
    assert forall|i: int, j: int| 0 <= i < j < r.len() implies (#[trigger] r[i]).0@ != (
    #[trigger] r[j]).0@ by {
        let a = if i < at {
            i
        } else {
            i + 1
        };
        let b = if j < at {
            j
        } else {
            j + 1
        };
        assert(r[i] == e[a] && r[j] == e[b]);
    }
    assert forall|k: Seq<char>| #![auto] as_map(r).contains_key(k) <==> as_map(e).remove(
        k0,
    ).contains_key(k) by {
        if has_key(r, k) {
            let i = choose|i: int| 0 <= i < r.len() && (#[trigger] r[i]).0@ == k;
            let a = if i < at {
                i
            } else {
                i + 1
            };
            assert(r[i] == e[a]);
            assert(e[a].0@ == k);
            if a < at {
                assert(e[a].0@ != e[at].0@);
            } else {
                assert(e[at].0@ != e[a].0@);
            }
        }
        if has_key(e, k) && k != k0 {
            let i = choose|i: int| 0 <= i < e.len() && (#[trigger] e[i]).0@ == k;
            let b = if i < at {
                i
            } else {
                i - 1
            };
            assert(r[b] == e[i]);
        }
    }
    assert forall|k: Seq<char>| as_map(r).contains_key(k) implies #[trigger] as_map(r)[k] == as_map(
        e,
    ).remove(k0)[k] by {
        assert(as_map(e).remove(k0).contains_key(k));
        let i = choose|i: int| 0 <= i < r.len() && (#[trigger] r[i]).0@ == k;
        lemma_entry(r, i);
        let a = if i < at {
            i
        } else {
            i + 1
        };
        assert(r[i] == e[a]);
        lemma_entry(e, a);
    }
    assert(as_map(r) =~= as_map(e).remove(k0));
}

proof fn lemma_pushed<V>(e: Seq<(String, V)>, k: String, v: V)
    requires
        keys_distinct(e),
        !has_key(e, k@),
    ensures
        keys_distinct(e.push((k, v))),
        as_map(e.push((k, v))) == as_map(e).insert(k@, v),
{
    let r = e.push((k, v));
    assert forall|i: int, j: int| 0 <= i < j < r.len() implies (#[trigger] r[i]).0@ != (
    #[trigger] r[j]).0@ by {
        assert(r[i] == e[i]);
        if j < e.len() {
            assert(r[j] == e[j]);
        } else {
            assert(e[i].0@ != k@);
        }
    }
    assert forall|q: Seq<char>| #![auto] as_map(r).contains_key(q) <==> as_map(e).insert(
        k@,
        v,
    ).contains_key(q) by {
        if has_key(r, q) {
            let i = choose|i: int| 0 <= i < r.len() && (#[trigger] r[i]).0@ == q;
            if i < e.len() {
                assert(e[i].0@ == q);
            }
        }
        if has_key(e, q) {
            let i = choose|i: int| 0 <= i < e.len() && (#[trigger] e[i]).0@ == q;
            assert(r[i].0@ == q);
        }
        if q == k@ {
            assert(r[e.len() as int].0@ == q);
        }
    }
    assert forall|q: Seq<char>| as_map(r).contains_key(q) implies #[trigger] as_map(r)[q] == as_map(
        e,
    ).insert(k@, v)[q] by {
        let i = choose|i: int| 0 <= i < r.len() && (#[trigger] r[i]).0@ == q;
        lemma_entry(r, i);
        if i < e.len() {
            assert(r[i] == e[i]);
            lemma_entry(e, i);
        }
    }
    assert(as_map(r) =~= as_map(e).insert(k@, v));
}

impl<V> TextMap<V> {
    /// No key occurs twice.
    pub open spec fn wf(self) -> bool {
        keys_distinct(self.entries@)
    }

    /// The empty map.
    pub fn new() -> (r: Self)
        ensures
            r.wf(),
            r@ == Map::<Seq<char>, V>::empty(),
            r.entries@.len() == 0,
    {
        let r = TextMap { entries: Vec::new() };
        proof {
            assert(r@ =~= Map::<Seq<char>, V>::empty());
        }
        r
    }

    /// The index of the entry with this key.
    pub fn find(&self, key: &str) -> (r: Option<usize>)
        requires
            self.wf(),
        ensures
            match r {
                Some(i) => i < self.entries@.len() && self.entries@[i as int].0@ == key@
                    && self@.contains_key(key@) && self@[key@] == self.entries@[i as int].1,
                None => !self@.contains_key(key@),
            },
    {
        let mut i: usize = 0;
        while i < self.entries.len()
            invariant
                i <= self.entries@.len(),
                self.wf(),
                forall|j: int| 0 <= j < i ==> (#[trigger] self.entries@[j]).0@ != key@,
            decreases self.entries@.len() - i,
        {
            if same_text(self.entries[i].0.as_str(), key) {
                proof {
                    lemma_entry(self.entries@, i as int);
                }
                return Some(i);
            }
            i = i + 1;
        }
        None
    }

    /// Whether the map has this key.
    pub fn contains(&self, key: &str) -> (r: bool)
        requires
            self.wf(),
        ensures
            r == self@.contains_key(key@),
    {
        self.find(key).is_some()
    }

    /// What the map holds under this key.
    pub fn get(&self, key: &str) -> (r: Option<&V>)
        requires
            self.wf(),
        ensures
            match r {
                Some(v) => self@.contains_key(key@) && *v == self@[key@],
                None => !self@.contains_key(key@),
            },
    {
        match self.find(key) {
            Some(i) => Some(&self.entries[i].1),
            None => None,
        }
    }

    /// Takes the entry with this key out.
    pub fn remove(&mut self, key: &str) -> (r: Option<V>)
        requires
            old(self).wf(),
        ensures
            final(self).wf(),
            final(self)@ == old(self)@.remove(key@),
            match r {
                Some(v) => old(self)@.contains_key(key@) && v == old(self)@[key@],
                None => !old(self)@.contains_key(key@),
            },
    {
        match self.find(key) {
            Some(i) => {
                proof {
                    lemma_removed(self.entries@, i as int);
                }
                let (_, v) = self.entries.remove(i);
                Some(v)
            },
            None => {
                proof {
                    assert(self@.remove(key@) =~= self@);
                }
                None
            },
        }
    }

    /// Puts a value under a key, in place of what was there.
    pub fn insert(&mut self, key: &str, v: V)
        requires
            old(self).wf(),
        ensures
            final(self).wf(),
            final(self)@ == old(self)@.insert(key@, v),
    {
        let ghost before = self@;
        let _ = self.remove(key);
        let k: String = key.to_owned();
        proof {
            assert(!self@.contains_key(key@));
            lemma_pushed(self.entries@, k, v);
            assert(before.remove(key@).insert(key@, v) =~= before.insert(key@, v));
        }
        self.entries.push((k, v));
    }
}

} // verus!
