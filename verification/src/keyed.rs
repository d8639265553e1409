//! A small map from instance ids to values, kept in the order entries came.
//!
//! What the session holds per device is keyed by instance id; the ids are
//! compared exactly, as the device list hands them out.
use vstd::prelude::*;

use crate::text::{same_str, str_string};

verus! {

/// The first entry on `key`.
pub open spec fn find_key<V>(entries: Seq<(Seq<char>, V)>, key: Seq<char>) -> Option<int>
    decreases entries.len(),
{
    if entries.len() == 0 {
        None
    } else {
        match find_key(entries.drop_last(), key) {
            Some(i) => Some(i),
            None => if entries.last().0 == key {
                Some(entries.len() - 1)
            } else {
                None
            },
        }
    }
}

pub proof fn lemma_find_key<V>(entries: Seq<(Seq<char>, V)>, key: Seq<char>)
    ensures
        match find_key(entries, key) {
            Some(j) => 0 <= j < entries.len() && entries[j].0 == key && forall|k: int|
                0 <= k < j ==> (#[trigger] entries[k]).0 != key,
            None => forall|k: int| 0 <= k < entries.len() ==> (#[trigger] entries[k]).0 != key,
        },
    decreases entries.len(),
{
    if entries.len() > 0 {
        lemma_find_key(entries.drop_last(), key);
        assert forall|k: int| 0 <= k < entries.len() - 1 implies #[trigger] entries[k] == entries.drop_last()[k] by {}
    }
}

/// The value on the first entry on `key`.
pub open spec fn lookup_in<V>(entries: Seq<(Seq<char>, V)>, key: Seq<char>) -> Option<V> {
    match find_key(entries, key) {
        Some(i) => Some(entries[i].1),
        None => None,
    }
}

/// Values by instance id.
pub struct Keyed<V> {
    entries: Vec<(String, V)>,
}

impl<V> Keyed<V> {
    pub closed spec fn view_entries(&self) -> Seq<(Seq<char>, V)> {
        self.entries@.map_values(|e: (String, V)| (e.0@, e.1))
    }

    /// The value on `key`, if any.
    pub open spec fn lookup(&self, key: Seq<char>) -> Option<V> {
        lookup_in(self.view_entries(), key)
    }

    /// How many entries there are.
    pub open spec fn size(&self) -> nat {
        self.view_entries().len()
    }

    #[verifier::type_invariant]
    closed spec fn keys_distinct(&self) -> bool {
        forall|a: int, b: int|
            0 <= a < b < self.view_entries().len() ==> (#[trigger] self.view_entries()[a]).0
                != (#[trigger] self.view_entries()[b]).0
    }

    pub fn new() -> (r: Self)
        ensures
            forall|k: Seq<char>| r.lookup(k).is_none(),
            r.size() == 0,
    {
        let r = Keyed { entries: Vec::new() };
        assert(r.view_entries() =~= Seq::<(Seq<char>, V)>::empty());
        r
    }

    fn position(&self, key: &str) -> (r: Option<usize>)
        ensures
            match r {
                Some(i) => find_key(self.view_entries(), key@) == Some(i as int),
                None => find_key(self.view_entries(), key@).is_none(),
            },
    {
        let ghost es = self.view_entries();
        proof {
            lemma_find_key(es, key@);
        }
        let n = self.entries.len();
        let mut i: usize = 0;
        while i < n
            invariant
                n == es.len(),
                es == self.view_entries(),
                i <= n,
                forall|k: int| 0 <= k < i ==> (#[trigger] es[k]).0 != key@,
                match find_key(es, key@) {
                    Some(j) => 0 <= j < es.len() && es[j].0 == key@ && forall|k: int|
                        0 <= k < j ==> (#[trigger] es[k]).0 != key@,
                    None => forall|k: int| 0 <= k < es.len() ==> (#[trigger] es[k]).0 != key@,
                },
            decreases n - i,
        {
            assert(es[i as int].0 == self.entries@[i as int].0@);
            if same_str(self.entries[i].0.as_str(), key) {
                return Some(i);
            }
            i = i + 1;
        }
        None
    }

    /// The value on `key`, if any.
    pub fn get(&self, key: &str) -> (r: Option<&V>)
        ensures
            match self.lookup(key@) {
                Some(v) => r matches Some(x) && *x == v,
                None => r.is_none(),
            },
    {
        proof {
            lemma_find_key(self.view_entries(), key@);
        }
        match self.position(key) {
            Some(i) => {
                assert(self.view_entries()[i as int].1 == self.entries@[i as int].1);
                Some(&self.entries[i].1)
            },
            None => None,
        }
    }

    /// Sets the value on `key`, leaving every other key as it was.
    pub fn insert(&mut self, key: &str, value: V)
        ensures
            final(self).lookup(key@) == Some(value),
            forall|k: Seq<char>| k != key@ ==> #[trigger] final(self).lookup(k) == old(self).lookup(k),
    {
        proof {
            use_type_invariant(&*self);
        }
        let ghost es = self.view_entries();
        let at = self.position(key);
        proof {
            lemma_find_key(es, key@);
        }
        let mut entries: Vec<(String, V)> = Vec::new();
        std::mem::swap(&mut entries, &mut self.entries);
        assert(entries@.map_values(|e: (String, V)| (e.0@, e.1)) == es);
        match at {
            Some(i) => {
                let old_entry = entries.remove(i);
                entries.insert(i, (old_entry.0, value));
                proof {
                    let fs = entries@.map_values(|e: (String, V)| (e.0@, e.1));
                    assert(fs =~= es.update(i as int, (es[i as int].0, value)));
                    assert forall|k: Seq<char>| #[trigger] find_key(fs, k) == find_key(es, k) by {
                        lemma_same_keys(es, fs, k);
                    }
                    assert forall|a: int, b: int| 0 <= a < b < fs.len() implies (#[trigger] fs[a]).0 != (#[trigger] fs[b]).0 by {
                        assert(fs[a].0 == es[a].0);
                        assert(fs[b].0 == es[b].0);
                    }
                    assert forall|k: Seq<char>| k != key@ implies #[trigger] lookup_in(fs, k) == lookup_in(es, k) by {
                        lemma_find_key(es, k);
                    }
                }
            },
            None => {
                entries.push((str_string(key), value));
                proof {
                    let fs = entries@.map_values(|e: (String, V)| (e.0@, e.1));
                    assert(fs.drop_last() =~= es);
                    assert(find_key(fs, key@) == Some(es.len() as int));
                    assert forall|k: Seq<char>| k != key@ implies #[trigger] find_key(fs, k) == find_key(es, k) by {}
                    assert forall|a: int, b: int| 0 <= a < b < fs.len() implies (#[trigger] fs[a]).0 != (#[trigger] fs[b]).0 by {
                        if b == es.len() {
                            assert(fs[a] == es[a]);
                        } else {
                            assert(fs[a] == es[a]);
                            assert(fs[b] == es[b]);
                        }
                    }
                    assert forall|k: Seq<char>| k != key@ implies #[trigger] lookup_in(fs, k) == lookup_in(es, k) by {
                        lemma_find_key(es, k);
                        if let Some(j) = find_key(es, k) {
                            assert(fs[j] == es[j]);
                        }
                    }
                }
            },
        }
        self.entries = entries;
    }

    /// Keeps only the entries whose key is in `keep`, returning how many went.
    pub fn retain_keys(&mut self, keep: &[String]) -> (r: usize)
        ensures
            forall|k: Seq<char>| #[trigger] final(self).lookup(k) == (if keep@.map_values(|s: String| s@).contains(k) {
                old(self).lookup(k)
            } else {
                None
            }),
            r == old(self).size() - final(self).size(),
    {
        proof {
            use_type_invariant(&*self);
        }
        let ghost es = self.view_entries();
        let ghost ks = keep@.map_values(|s: String| s@);
        let mut entries: Vec<(String, V)> = Vec::new();
        std::mem::swap(&mut entries, &mut self.entries);
        assert(entries@.map_values(|e: (String, V)| (e.0@, e.1)) == es);
        let n = entries.len();
        let ghost start = entries@;
        let mut out: Vec<(String, V)> = Vec::new();
        let ghost mut src: Seq<int> = Seq::empty();
        let mut i: usize = 0;
        while i < n
            invariant
                n == es.len(),
                n == start.len(),
                start.map_values(|e: (String, V)| (e.0@, e.1)) == es,
                ks == keep@.map_values(|s: String| s@),
                forall|a: int, b: int| 0 <= a < b < es.len() ==> (#[trigger] es[a]).0 != (#[trigger] es[b]).0,
                i <= n,
                entries@ == start.skip(i as int),
                src.len() == out@.len(),
                out@.len() <= i,
                forall|x: int| 0 <= x < out@.len() ==> 0 <= #[trigger] src[x] < i && (out@[x].0@, out@[x].1) == es[src[x]]
                    && ks.contains(es[src[x]].0),
                forall|a: int, b: int| 0 <= a < b < out@.len() ==> #[trigger] src[a] < #[trigger] src[b],
                forall|t: int| 0 <= t < i && ks.contains(#[trigger] es[t].0) ==> exists|x: int| 0 <= x < out@.len() && src[x] == t,
            decreases n - i,
        {
            assert(entries@[0] == start[i as int]);
            let e = entries.remove(0);
            assert(entries@ =~= start.skip(i as int + 1));
            assert(es[i as int] == (e.0@, e.1));
            let mut found = false;
            let m = keep.len();
            let mut j: usize = 0;
            while j < m
                invariant
                    m == keep@.len(),
                    ks == keep@.map_values(|s: String| s@),
                    j <= m,
                    found == exists|x: int| 0 <= x < j && ks[x] == e.0@,
                decreases m - j,
            {
                assert(ks[j as int] == keep@[j as int]@);
                if same_str(keep[j].as_str(), e.0.as_str()) {
                    found = true;
                }
                j = j + 1;
            }
            if found {
                let ghost before = out@;
                let ghost old_src = src;
                out.push(e);
                proof {
                    src = src.push(i as int);
                    assert forall|t: int| 0 <= t < i + 1 && ks.contains(#[trigger] es[t].0) implies exists|x: int| 0 <= x < out@.len() && src[x] == t by {
                        if t == i {
                            assert(src[before.len() as int] == t);
                        } else {
                            let x = choose|x: int| 0 <= x < before.len() && old_src[x] == t;
                            assert(src[x] == t);
                        }
                    }
                }
            } else {
                proof {
                    assert(!ks.contains(es[i as int].0));
                }
            }
            i = i + 1;
        }
        let r = n - out.len();
        proof {
            let fs = out@.map_values(|e: (String, V)| (e.0@, e.1));
            assert forall|a: int, b: int| 0 <= a < b < fs.len() implies (#[trigger] fs[a]).0 != (#[trigger] fs[b]).0 by {
                assert(fs[a] == es[src[a]]);
                assert(fs[b] == es[src[b]]);
            }
            assert forall|k: Seq<char>| #[trigger] lookup_in(fs, k) == (if ks.contains(k) {
                lookup_in(es, k)
            } else {
                None
            }) by {
                lemma_find_key(es, k);
                lemma_find_key(fs, k);
                match find_key(fs, k) {
                    Some(j) => {
                        assert(fs[j] == es[src[j]]);
                        assert(es[src[j]].0 == k);
                    },
                    None => {
                        if ks.contains(k) {
                            if let Some(t) = find_key(es, k) {
                                let x = choose|x: int| 0 <= x < out@.len() && src[x] == t;
                                assert(fs[x] == es[t]);
                            }
                        }
                    },
                }
            }
        }
        self.entries = out;
        r
    }
}

proof fn lemma_same_keys<V>(es: Seq<(Seq<char>, V)>, fs: Seq<(Seq<char>, V)>, k: Seq<char>)
    requires
        es.len() == fs.len(),
        forall|i: int| 0 <= i < es.len() ==> (#[trigger] es[i]).0 == fs[i].0,
    ensures
        find_key(es, k) == find_key(fs, k),
    decreases es.len(),
{
    if es.len() > 0 {
        assert forall|i: int| 0 <= i < es.len() - 1 implies (#[trigger] es.drop_last()[i]).0 == fs.drop_last()[i].0 by {
            assert(es.drop_last()[i] == es[i]);
            assert(fs.drop_last()[i] == fs[i]);
        }
        lemma_same_keys(es.drop_last(), fs.drop_last(), k);
    }
}

} // verus!
