//! A map from positions to values that remembers insertion order: lookups go
//! by key, iteration and positional access follow the order keys first
//! arrived in.

use vstd::prelude::*;

verus! {

/// Where a key first stands in an entry sequence, if anywhere.
pub open spec fn key_at<T>(entries: Seq<(usize, T)>, key: usize) -> Option<int>
    decreases entries.len(),
{
    if entries.len() == 0 {
        None
    } else if entries[0].0 == key {
        Some(0int)
    } else {
        match key_at(entries.drop_first(), key) {
            Some(i) => Some(i + 1),
            None => None,
        }
    }
}

/// What a first-position scan yields: a hit is in range, carries the key,
/// and nothing earlier does; a miss means no entry does.
pub proof fn lemma_key_at<T>(entries: Seq<(usize, T)>, key: usize)
    ensures
        match key_at(entries, key) {
            Some(i) => 0 <= i < entries.len() && entries[i].0 == key && forall|t: int|
                0 <= t < i ==> (#[trigger] entries[t]).0 != key,
            None => forall|t: int| 0 <= t < entries.len() ==> (#[trigger] entries[t]).0 != key,
        },
    decreases entries.len(),
{
    if entries.len() > 0 && entries[0].0 != key {
        let rest = entries.drop_first();
        lemma_key_at(rest, key);
        assert(forall|t: int| 0 <= t < rest.len() ==> rest[t] == entries[t + 1]);
        match key_at(entries, key) {
            Some(i) => {
                assert(entries[i] == rest[i - 1]);
                assert forall|t: int| 0 <= t < i implies (#[trigger] entries[t]).0 != key by {
                    if t >= 1 {
                        assert(entries[t] == rest[t - 1]);
                    }
                }
            },
            None => {
                assert forall|t: int| 0 <= t < entries.len() implies (#[trigger] entries[t]).0
                    != key by {
                    if t >= 1 {
                        assert(entries[t] == rest[t - 1]);
                    }
                }
            },
        }
    }
}

/// A map over `usize` keys that keeps first-insertion order.
#[derive(Debug)]
pub struct OrderedMap<T> {
    /// The entries, in first-insertion order of their keys, each key held
    /// once.
    pub entries: Vec<(usize, T)>,
}

impl<T> OrderedMap<T> {
    /// The structural invariant: every key is held at most once.
    pub open spec fn wf(&self) -> bool {
        forall|a: int, b: int|
            0 <= a < b < self.entries@.len() ==> (#[trigger] self.entries@[a]).0 != (
            #[trigger] self.entries@[b]).0
    }

    /// An empty map.
    pub fn new() -> (r: OrderedMap<T>)
        ensures
            r.entries@.len() == 0,
            r.wf(),
    {
        OrderedMap { entries: Vec::new() }
    }

    /// How many keys the map holds.
    pub fn len(&self) -> (r: usize)
        ensures
            r == self.entries@.len(),
    {
        self.entries.len()
    }

    /// Whether the map holds no key.
    pub fn is_empty(&self) -> (r: bool)
        ensures
            r == (self.entries@.len() == 0),
    {
        self.entries.len() == 0
    }

    /// The position at which `key` is stored, scanning insertion order.
    fn position_of(&self, key: usize) -> (r: Option<usize>)
        ensures
            match r {
                Some(i) => key_at(self.entries@, key) == Some(i as int),
                None => key_at(self.entries@, key) is None,
            },
    {
        let mut i: usize = 0;
        proof {
            lemma_key_at(self.entries@, key);
        }
        while i < self.entries.len()
            invariant
                i <= self.entries@.len(),
                forall|t: int| 0 <= t < i ==> (#[trigger] self.entries@[t]).0 != key,
                match key_at(self.entries@, key) {
                    Some(m) => 0 <= m < self.entries@.len() && self.entries@[m].0 == key
                        && forall|t: int|
                        0 <= t < m ==> (#[trigger] self.entries@[t]).0 != key,
                    None => forall|t: int|
                        0 <= t < self.entries@.len() ==> (#[trigger] self.entries@[t]).0 != key,
                },
            decreases self.entries@.len() - i,
        {
            if self.entries[i].0 == key {
                proof {
                    match key_at(self.entries@, key) {
                        Some(m) => {
                            if m < i as int {
                                assert(self.entries@[m].0 != key);
                            }
                            if m > i as int {
                                assert(self.entries@[i as int].0 != key);
                            }
                        },
                        None => {
                            assert(self.entries@[i as int].0 != key);
                        },
                    }
                }
                return Some(i);
            }
            i += 1;
        }
        proof {
            if key_at(self.entries@, key) is Some {
                let m = key_at(self.entries@, key)->0;
                assert(self.entries@[m].0 != key);
            }
        }
        None
    }

    /// The value stored under `key`, if any.
    pub fn get(&self, key: usize) -> (r: Option<&T>)
        ensures
            match r {
                Some(v) => {
                    &&& key_at(self.entries@, key) is Some
                    &&& *v == self.entries@[key_at(self.entries@, key)->0].1
                },
                None => key_at(self.entries@, key) is None,
            },
    {
        match self.position_of(key) {
            Some(i) => {
                proof {
                    lemma_key_at(self.entries@, key);
                }
                Some(&self.entries[i].1)
            },
            None => None,
        }
    }

    /// The key and value at one insertion-order position.
    pub fn get_by_index(&self, index: usize) -> (r: Option<&T>)
        ensures
            match r {
                Some(v) => index < self.entries@.len() && *v == self.entries@[index as int].1,
                None => index >= self.entries@.len(),
            },
    {
        if index < self.entries.len() {
            Some(&self.entries[index].1)
        } else {
            None
        }
    }

    /// Stores `value` under `key`: a held key keeps its position and yields
    /// its old value; a fresh key joins at the end.
    pub fn insert(&mut self, key: usize, value: T) -> (r: Option<T>)
        requires
            old(self).wf(),
        ensures
            final(self).wf(),
            match key_at(old(self).entries@, key) {
                Some(i) => {
                    &&& r is Some
                    &&& r->0 == old(self).entries@[i].1
                    &&& final(self).entries@ == old(self).entries@.update(i, (key, value))
                },
                None => {
                    &&& r is None
                    &&& final(self).entries@ == old(self).entries@.push((key, value))
                },
            },
    {
        let ghost pre = self.entries@;
        match self.position_of(key) {
            Some(i) => {
                proof {
                    lemma_key_at(pre, key);
                }
                let old_pair = self.entries.remove(i);
                self.entries.insert(i, (key, value));
                proof {
                    assert(self.entries@ =~= pre.update(i as int, (key, value)));
                    assert forall|a: int, b: int|
                        0 <= a < b < self.entries@.len() implies (#[trigger] self.entries@[a]).0
                        != (#[trigger] self.entries@[b]).0 by {
                        assert(pre[a].0 != pre[b].0);
                        assert(self.entries@[a].0 == if a == i as int {
                            pre[a].0
                        } else {
                            pre[a].0
                        });
                    }
                }
                Some(old_pair.1)
            },
            None => {
                proof {
                    lemma_key_at(pre, key);
                }
                self.entries.push((key, value));
                proof {
                    assert forall|a: int, b: int|
                        0 <= a < b < self.entries@.len() implies (#[trigger] self.entries@[a]).0
                        != (#[trigger] self.entries@[b]).0 by {
                        if b < pre.len() {
                            assert(pre[a].0 != pre[b].0);
                        } else {
                            assert(pre[a].0 != key);
                        }
                    }
                }
                None
            },
        }
    }

    /// Removes `key`, keeping the order of the remaining entries, and yields
    /// the removed value.
    pub fn remove(&mut self, key: usize) -> (r: Option<T>)
        requires
            old(self).wf(),
        ensures
            final(self).wf(),
            match key_at(old(self).entries@, key) {
                Some(i) => r is Some && r->0 == old(self).entries@[i].1 && final(self).entries@
                    == old(self).entries@.remove(i),
                None => r is None && final(self).entries@ == old(self).entries@,
            },
    {
        let ghost pre = self.entries@;
        match self.position_of(key) {
            Some(i) => {
                proof {
                    lemma_key_at(pre, key);
                }
                let pair = self.entries.remove(i);
                proof {
                    assert forall|a: int, b: int|
                        0 <= a < b < self.entries@.len() implies (#[trigger] self.entries@[a]).0
                        != (#[trigger] self.entries@[b]).0 by {
                        let pa = if a < i as int {
                            a
                        } else {
                            a + 1
                        };
                        let pb = if b < i as int {
                            b
                        } else {
                            b + 1
                        };
                        assert(self.entries@[a] == pre[pa]);
                        assert(self.entries@[b] == pre[pb]);
                        assert(pre[pa].0 != pre[pb].0);
                    }
                }
                Some(pair.1)
            },
            None => None,
        }
    }

    /// The first-inserted key and its value, if any.
    pub fn first(&self) -> (r: Option<(usize, &T)>)
        ensures
            match r {
                Some(p) => self.entries@.len() > 0 && p.0 == self.entries@[0].0 && *p.1
                    == self.entries@[0].1,
                None => self.entries@.len() == 0,
            },
    {
        if self.entries.len() > 0 {
            Some((self.entries[0].0, &self.entries[0].1))
        } else {
            None
        }
    }

    /// The last-inserted key and its value, if any.
    pub fn last(&self) -> (r: Option<(usize, &T)>)
        ensures
            match r {
                Some(p) => {
                    &&& self.entries@.len() > 0
                    &&& p.0 == self.entries@[self.entries@.len() - 1].0
                    &&& *p.1 == self.entries@[self.entries@.len() - 1].1
                },
                None => self.entries@.len() == 0,
            },
    {
        if self.entries.len() > 0 {
            let i = self.entries.len() - 1;
            Some((self.entries[i].0, &self.entries[i].1))
        } else {
            None
        }
    }

    /// Every key-value pair, in insertion order.
    pub fn iter(&self) -> (r: Vec<(usize, &T)>)
        ensures
            r@.len() == self.entries@.len(),
            forall|t: int|
                0 <= t < r@.len() ==> (#[trigger] r@[t]).0 == self.entries@[t].0 && *r@[t].1
                    == self.entries@[t].1,
    {
        let mut out: Vec<(usize, &T)> = Vec::new();
        let mut i: usize = 0;
        while i < self.entries.len()
            invariant
                i <= self.entries@.len(),
                out@.len() == i,
                forall|t: int|
                    0 <= t < i ==> (#[trigger] out@[t]).0 == self.entries@[t].0 && *out@[t].1
                        == self.entries@[t].1,
            decreases self.entries@.len() - i,
        {
            out.push((self.entries[i].0, &self.entries[i].1));
            i += 1;
        }
        out
    }
}

} // verus!
