//! An ordered metadata map from text keys to scalar values.

use vstd::prelude::*;

verus! {

/// A value of the metadata map. Null, booleans and strings are what the
/// hooks read; any other value (a number, a list, a nested map) is carried
/// through untouched in `Other`.
#[derive(Debug, Clone, PartialEq, Eq)]
pub enum MetaValue<V> {
    Null,
    Bool(bool),
    Str(String),
    Other(V),
}

/// One entry of the map as the contracts see it.
pub type Entry<V> = (Seq<char>, MetaValue<V>);

/// No key occurs twice.
pub open spec fn keys_distinct<V>(s: Seq<Entry<V>>) -> bool {
    forall|i: int, j: int| 0 <= i < s.len() && 0 <= j < s.len() && i != j ==> s[i].0 != s[j].0
}

pub open spec fn has_key<V>(s: Seq<Entry<V>>, k: Seq<char>) -> bool {
    exists|i: int| 0 <= i < s.len() && s[i].0 == k
}

/// Position of key `k` (meaningful only when `has_key(s, k)`).
#[verifier::opaque]
pub open spec fn key_index<V>(s: Seq<Entry<V>>, k: Seq<char>) -> int {
    choose|i: int| 0 <= i < s.len() && s[i].0 == k
}

/// The value stored under `k`, if any.
#[verifier::opaque]
pub open spec fn lookup<V>(s: Seq<Entry<V>>, k: Seq<char>) -> Option<MetaValue<V>> {
    if has_key(s, k) {
        Some(s[key_index(s, k)].1)
    } else {
        None
    }
}

/// The entries with the one under `k` taken out; the others keep their order.
#[verifier::opaque]
pub open spec fn without<V>(s: Seq<Entry<V>>, k: Seq<char>) -> Seq<Entry<V>> {
    if has_key(s, k) {
        s.remove(key_index(s, k))
    } else {
        s
    }
}

/// The entries with `v` under `k`: an existing entry is replaced where it
/// stands, a new one is appended.
#[verifier::opaque]
pub open spec fn with<V>(s: Seq<Entry<V>>, k: Seq<char>, v: MetaValue<V>) -> Seq<Entry<V>> {
    if has_key(s, k) {
        s.update(key_index(s, k), (k, v))
    } else {
        s.push((k, v))
    }
}

/// A key that is absent or holds null.
pub open spec fn is_unset<V>(v: Option<MetaValue<V>>) -> bool {
    v is None || v == Some(MetaValue::<V>::Null)
}

pub proof fn lemma_key_index_unique<V>(s: Seq<Entry<V>>, k: Seq<char>, i: int)
    requires
        keys_distinct(s),
        0 <= i < s.len(),
        s[i].0 == k,
    ensures
        has_key(s, k),
        key_index(s, k) == i,
        lookup(s, k) == Some(s[i].1),
{
    reveal(key_index);
    reveal(lookup);
    assert(has_key(s, k));
    let j = key_index(s, k);
    assert(s[j].0 == k);
}

/// A key is present exactly when it has a value.
pub proof fn lemma_lookup_present<V>(s: Seq<Entry<V>>, k: Seq<char>)
    ensures
        lookup(s, k) is Some <==> has_key(s, k),
{
    reveal(lookup);
}

/// Taking a key out leaves the other keys as they were.
pub proof fn lemma_without<V>(s: Seq<Entry<V>>, k: Seq<char>)
    requires
        keys_distinct(s),
    ensures
        keys_distinct(without(s, k)),
        forall|j: Seq<char>|
            #[trigger] lookup(without(s, k), j) == if j == k {
                None
            } else {
                lookup(s, j)
            },
{
    reveal(without);
    reveal(lookup);
    reveal(key_index);
    let r = without(s, k);
    if has_key(s, k) {
        let i = key_index(s, k);
        assert forall|a: int, b: int| 0 <= a < r.len() && 0 <= b < r.len() && a != b implies r[a].0
            != r[b].0 by {
            let a2 = if a < i { a } else { a + 1 };
            let b2 = if b < i { b } else { b + 1 };
            assert(r[a] == s[a2]);
            assert(r[b] == s[b2]);
        }
        assert forall|j: Seq<char>|
            #[trigger] lookup(r, j) == if j == k {
                None
            } else {
                lookup(s, j)
            } by {
            if j == k {
                if has_key(r, j) {
                    let a = key_index(r, j);
                    let a2 = if a < i { a } else { a + 1 };
                    assert(r[a] == s[a2]);
                }
            } else if has_key(s, j) {
                let c = key_index(s, j);
                assert(c != i);
                let c2 = if c < i { c } else { c - 1 };
                assert(r[c2] == s[c]);
                lemma_key_index_unique(r, j, c2);
            } else if has_key(r, j) {
                let a = key_index(r, j);
                let a2 = if a < i { a } else { a + 1 };
                assert(r[a] == s[a2]);
            }
        }
    }
}

/// Storing under a key changes that key alone.
pub proof fn lemma_with<V>(s: Seq<Entry<V>>, k: Seq<char>, v: MetaValue<V>)
    requires
        keys_distinct(s),
    ensures
        keys_distinct(with(s, k, v)),
        forall|j: Seq<char>|
            #[trigger] lookup(with(s, k, v), j) == if j == k {
                Some(v)
            } else {
                lookup(s, j)
            },
{
    reveal(with);
    reveal(lookup);
    reveal(key_index);
    let r = with(s, k, v);
    if has_key(s, k) {
        let i = key_index(s, k);
        assert forall|j: Seq<char>|
            #[trigger] lookup(r, j) == if j == k {
                Some(v)
            } else {
                lookup(s, j)
            } by {
            if j == k {
                lemma_key_index_unique(r, j, i);
            } else if has_key(s, j) {
                let c = key_index(s, j);
                lemma_key_index_unique(r, j, c);
            } else if has_key(r, j) {
                let a = key_index(r, j);
                assert(r[a] == s[a]);
            }
        }
    } else {
        let n = s.len() as int;
        assert forall|a: int, b: int| 0 <= a < r.len() && 0 <= b < r.len() && a != b implies r[a].0
            != r[b].0 by {
            if a < n && b < n {
                assert(r[a] == s[a]);
                assert(r[b] == s[b]);
            } else if a < n {
                assert(r[a] == s[a]);
            } else if b < n {
                assert(r[b] == s[b]);
            }
        }
        assert forall|j: Seq<char>|
            #[trigger] lookup(r, j) == if j == k {
                Some(v)
            } else {
                lookup(s, j)
            } by {
            if j == k {
                lemma_key_index_unique(r, j, n);
            } else if has_key(s, j) {
                let c = key_index(s, j);
                assert(r[c] == s[c]);
                lemma_key_index_unique(r, j, c);
            } else if has_key(r, j) {
                let a = key_index(r, j);
                assert(r[a] == s[a]);
            }
        }
    }
}

/// The metadata of one document: entries in the order they were written,
/// each key at most once.
pub struct Frontmatter<V> {
    entries: Vec<(String, MetaValue<V>)>,
}

impl<V> View for Frontmatter<V> {
    type V = Seq<Entry<V>>;

    closed spec fn view(&self) -> Seq<Entry<V>> {
        self.entries@.map_values(|e: (String, MetaValue<V>)| (e.0@, e.1))
    }
}

impl<V> Frontmatter<V> {
    pub open spec fn wf(&self) -> bool {
        keys_distinct(self@)
    }

    pub fn new() -> (r: Self)
        ensures
            r@ == Seq::<Entry<V>>::empty(),
            r.wf(),
    {
        let r = Frontmatter { entries: Vec::new() };
        assert(r@ =~= Seq::<Entry<V>>::empty());
        r
    }

    pub fn len(&self) -> (r: usize)
        ensures
            r == self@.len(),
    {
        self.entries.len()
    }

    /// The entries, in order.
    pub fn into_entries(self) -> (r: Vec<(String, MetaValue<V>)>)
        ensures
            r@.map_values(|e: (String, MetaValue<V>)| (e.0@, e.1)) == self@,
    {
        self.entries
    }

    /// Where `key` stands, if it is present.
    fn position(&self, key: &str) -> (r: Option<usize>)
        requires
            self.wf(),
        ensures
            r is None <==> !has_key(self@, key@),
            r matches Some(i) ==> i < self@.len() && i == key_index(self@, key@),
    {
        let k = String::from_str(key);
        let mut i: usize = 0;
        while i < self.entries.len()
            invariant
                self.wf(),
                k@ == key@,
                i <= self.entries.len(),
                forall|j: int| 0 <= j < i ==> self@[j].0 != key@,
            decreases self.entries.len() - i,
        {
            let e = &self.entries[i];
            assert(self@[i as int] == (e.0@, e.1));
            if e.0 == k {
                proof {
                    lemma_key_index_unique(self@, key@, i as int);
                }
                return Some(i);
            }
            i = i + 1;
        }
        None
    }

    /// The value under `key`.
    pub fn get(&self, key: &str) -> (r: Option<&MetaValue<V>>)
        requires
            self.wf(),
        ensures
            lookup(self@, key@) == match r {
                Some(v) => Some(*v),
                None => None,
            },
    {
        proof {
            reveal(lookup);
        }
        match self.position(key) {
            Some(i) => {
                assert(self@[i as int].1 == self.entries[i as int].1);
                Some(&self.entries[i].1)
            },
            None => None,
        }
    }

    pub fn contains_key(&self, key: &str) -> (r: bool)
        requires
            self.wf(),
        ensures
            r == has_key(self@, key@),
    {
        self.position(key).is_some()
    }

    /// Takes the entry under `key` out and returns its value; the other
    /// entries keep their order.
    pub fn remove(&mut self, key: &str) -> (r: Option<MetaValue<V>>)
        requires
            old(self).wf(),
        ensures
            final(self).wf(),
            final(self)@ == without(old(self)@, key@),
            r == lookup(old(self)@, key@),
    {
        proof {
            lemma_without(self@, key@);
        }
        match self.position(key) {
            Some(i) => {
                let ghost s = self@;
                proof {
                    reveal(without);
                    reveal(lookup);
                }
                let e = self.entries.remove(i);
                assert(self@ =~= s.remove(i as int));
                Some(e.1)
            },
            None => {
                proof {
                    reveal(without);
                    reveal(lookup);
                }
                None
            },
        }
    }

    /// Stores `value` under `key` and returns the value it replaced. A key
    /// already present keeps its place; a new one goes last.
    pub fn insert(&mut self, key: String, value: MetaValue<V>) -> (r: Option<MetaValue<V>>)
        requires
            old(self).wf(),
        ensures
            final(self).wf(),
            final(self)@ == with(old(self)@, key@, value),
            r == lookup(old(self)@, key@),
    {
        proof {
            lemma_with(self@, key@, value);
        }
        let ghost s = self@;
        let ghost kv = key@;
        proof {
            reveal(with);
            reveal(lookup);
        }
        match self.position(key.as_str()) {
            Some(i) => {
                let e = self.entries.remove(i);
                self.entries.insert(i, (key, value));
                assert(self@ =~= s.update(i as int, (kv, value)));
                Some(e.1)
            },
            None => {
                self.entries.push((key, value));
                assert(self@ =~= s.push((kv, value)));
                None
            },
        }
    }
}

} // verus!
