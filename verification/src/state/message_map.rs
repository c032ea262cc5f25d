use std::num::NonZeroUsize;

use lru::LruCache;
use vstd::prelude::*;

use crate::types::{MessageRef, MessageRefView};

verus! {

/// lru's cache type, held by `MessageMap`.
#[verifier::external_type_specification]
#[verifier::external_body]
#[verifier::reject_recursive_types(K)]
#[verifier::reject_recursive_types(V)]
#[verifier::reject_recursive_types(S)]
pub struct ExLruCache<K, V, S>(LruCache<K, V, S>);

/// The hasher lru's cache uses by default (hashbrown's `DefaultHashBuilder`).
#[verifier::external_type_specification]
#[verifier::external_body]
pub struct ExLruDefaultHasher(lru::DefaultHasher);

/// The entries of a cache, least recently used first.
pub uninterp spec fn lru_entries(c: LruCache<i64, MessageRef>) -> Seq<(i64, MessageRefView)>;

/// The capacity a cache was made with.
pub uninterp spec fn lru_cap(c: LruCache<i64, MessageRef>) -> nat;

/// No key occurs twice.
pub open spec fn keys_unique(s: Seq<(i64, MessageRefView)>) -> bool {
    forall|i: int, j: int| 0 <= i < j < s.len() ==> (#[trigger] s[i]).0 != (#[trigger] s[j]).0
}

/// The position of key `k`: its last occurrence, the only one where keys
/// are unique.
pub open spec fn key_pos(s: Seq<(i64, MessageRefView)>, k: i64) -> Option<int>
    decreases s.len(),
{
    if s.len() == 0 {
        None
    } else if s.last().0 == k {
        Some(s.len() - 1)
    } else {
        key_pos(s.drop_last(), k)
    }
}

/// The value stored under `k`.
pub open spec fn lookup(s: Seq<(i64, MessageRefView)>, k: i64) -> Option<MessageRefView> {
    match key_pos(s, k) {
        Some(i) => Some(s[i].1),
        None => None,
    }
}

/// Entries after `put(k, v)`: an entry with key `k` is moved to the most
/// recent end holding `v`; otherwise, when full, the least recently used
/// entry goes, and `(k, v)` comes in as the most recent.
pub open spec fn lru_put_spec(s: Seq<(i64, MessageRefView)>, cap: nat, k: i64, v: MessageRefView) -> Seq<
    (i64, MessageRefView),
> {
    match key_pos(s, k) {
        Some(i) => s.remove(i).push((k, v)),
        None => if s.len() >= cap {
            s.drop_first().push((k, v))
        } else {
            s.push((k, v))
        },
    }
}

/// Entries after `get(k)`: a hit moves its entry to the most recent end.
pub open spec fn lru_touch_spec(s: Seq<(i64, MessageRefView)>, k: i64) -> Seq<(i64, MessageRefView)> {
    match key_pos(s, k) {
        Some(i) => s.remove(i).push(s[i]),
        None => s,
    }
}

/// A cache of the given capacity
/// (`LruCache::new(NonZeroUsize::new(cap).unwrap())`): it starts empty.
#[verifier::external_body]
fn lru_new(cap: usize) -> (c: LruCache<i64, MessageRef>)
    requires
        cap >= 1,
    ensures
        lru_entries(c) == Seq::<(i64, MessageRefView)>::empty(),
        lru_cap(c) == cap,
{
    LruCache::new(NonZeroUsize::new(cap).unwrap())
}

/// `LruCache::put`: stores `v` under `k` as the most recently used entry,
/// evicting the least recently used one when the key is new and the cache
/// is full; returns the value it replaced.
#[verifier::external_body]
fn lru_put(c: &mut LruCache<i64, MessageRef>, k: i64, v: MessageRef) -> (r: Option<MessageRef>)
    requires
        keys_unique(lru_entries(*old(c))),
        lru_entries(*old(c)).len() <= lru_cap(*old(c)),
    ensures
        lru_entries(*final(c)) == lru_put_spec(lru_entries(*old(c)), lru_cap(*old(c)), k, v@),
        lru_cap(*final(c)) == lru_cap(*old(c)),
        match r {
            Some(x) => lookup(lru_entries(*old(c)), k) == Some(x@),
            None => lookup(lru_entries(*old(c)), k) is None,
        },
{
    c.put(k, v)
}

/// `LruCache::get`: the value under `k`, its entry becoming the most
/// recently used.
#[verifier::external_body]
fn lru_get<'a>(c: &'a mut LruCache<i64, MessageRef>, k: &i64) -> (r: Option<&'a MessageRef>)
    requires
        keys_unique(lru_entries(*old(c))),
    ensures
        lru_entries(*final(c)) == lru_touch_spec(lru_entries(*old(c)), *k),
        lru_cap(*final(c)) == lru_cap(*old(c)),
        match r {
            Some(v) => lookup(lru_entries(*old(c)), *k) == Some(v@),
            None => lookup(lru_entries(*old(c)), *k) is None,
        },
{
    c.get(k)
}

/// Where recently seen OneBot message ids point to upstream, keeping at most
/// `capacity` of them and forgetting the least recently used first.
pub struct MessageMap {
    inner: LruCache<i64, MessageRef>,
}

impl MessageMap {
    /// The cached refs, least recently used first.
    pub closed spec fn entries(&self) -> Seq<(i64, MessageRefView)> {
        lru_entries(self.inner)
    }

    pub closed spec fn capacity(&self) -> nat {
        lru_cap(self.inner)
    }

    /// Keys are unique and there are no more entries than the capacity.
    pub open spec fn wf(&self) -> bool {
        &&& keys_unique(self.entries())
        &&& self.entries().len() <= self.capacity()
        &&& self.capacity() >= 1
    }

    /// An empty map holding at most `cache_size` refs (at least one).
    pub fn new(cache_size: usize) -> (r: Self)
        ensures
            r.wf(),
            r.entries() == Seq::<(i64, MessageRefView)>::empty(),
            r.capacity() == if cache_size >= 1 {
                cache_size as nat
            } else {
                1
            },
    {
        let cap = if cache_size >= 1 {
            cache_size
        } else {
            1
        };
        MessageMap { inner: lru_new(cap) }
    }

    /// Stores `r` under its OneBot id as the most recently used entry.
    pub fn put(&mut self, r: MessageRef)
        requires
            old(self).wf(),
        ensures
            final(self).wf(),
            final(self).capacity() == old(self).capacity(),
            final(self).entries() == lru_put_spec(
                old(self).entries(),
                old(self).capacity(),
                r.onebot_id,
                r@,
            ),
    {
        let k = r.onebot_id;
        let ghost rv = r@;
        let _ = lru_put(&mut self.inner, k, r);
        proof {
            lemma_put_wf(old(self).entries(), old(self).capacity(), k, rv);
        }
    }

    /// A copy of the ref under `onebot_id`; a hit becomes the most recently
    /// used entry.
    pub fn get(&mut self, onebot_id: i64) -> (r: Option<MessageRef>)
        requires
            old(self).wf(),
        ensures
            final(self).wf(),
            final(self).capacity() == old(self).capacity(),
            final(self).entries() == lru_touch_spec(old(self).entries(), onebot_id),
            match r {
                Some(x) => lookup(old(self).entries(), onebot_id) == Some(x@),
                None => lookup(old(self).entries(), onebot_id) is None,
            },
    {
        let ghost s = self.entries();
        let r = match lru_get(&mut self.inner, &onebot_id) {
            Some(v) => Some(v.clone()),
            None => None,
        };
        proof {
            lemma_touch_wf(s, onebot_id);
        }
        r
    }
}

/// A found position holds the key.
pub proof fn lemma_key_pos(s: Seq<(i64, MessageRefView)>, k: i64)
    ensures
        match key_pos(s, k) {
            Some(i) => 0 <= i < s.len() && s[i].0 == k,
            None => forall|j: int| 0 <= j < s.len() ==> (#[trigger] s[j]).0 != k,
        },
    decreases s.len(),
{
    if s.len() > 0 && s.last().0 != k {
        lemma_key_pos(s.drop_last(), k);
        assert forall|j: int| 0 <= j < s.len() - 1 implies (#[trigger] s[j]).0 == s.drop_last()[j].0 by {}
    }
}

pub proof fn lemma_put_wf(s: Seq<(i64, MessageRefView)>, cap: nat, k: i64, v: MessageRefView)
    requires
        keys_unique(s),
        s.len() <= cap,
        cap >= 1,
    ensures
        keys_unique(lru_put_spec(s, cap, k, v)),
        lru_put_spec(s, cap, k, v).len() <= cap,
{
    lemma_key_pos(s, k);
    let t = lru_put_spec(s, cap, k, v);
    match key_pos(s, k) {
        Some(i) => {
            let r = s.remove(i);
            assert forall|a: int, b: int| 0 <= a < b < t.len() implies (#[trigger] t[a]).0 != (
            #[trigger] t[b]).0 by {
                if b == t.len() - 1 {
                    if a < i {
                        assert(t[a] == s[a]);
                    } else {
                        assert(t[a] == s[a + 1]);
                    }
                } else {
                    let sa = if a < i { a } else { a + 1 };
                    let sb = if b < i { b } else { b + 1 };
                    assert(t[a] == s[sa]);
                    assert(t[b] == s[sb]);
                }
            }
        },
        None => {
            assert forall|a: int, b: int| 0 <= a < b < t.len() implies (#[trigger] t[a]).0 != (
            #[trigger] t[b]).0 by {
                if s.len() >= cap {
                    if b < t.len() - 1 {
                        assert(t[a] == s[a + 1]);
                        assert(t[b] == s[b + 1]);
                    } else {
                        assert(t[a] == s[a + 1]);
                    }
                } else {
                    if b < t.len() - 1 {
                        assert(t[a] == s[a]);
                        assert(t[b] == s[b]);
                    } else {
                        assert(t[a] == s[a]);
                    }
                }
            }
        },
    }
}

pub proof fn lemma_touch_wf(s: Seq<(i64, MessageRefView)>, k: i64)
    requires
        keys_unique(s),
    ensures
        keys_unique(lru_touch_spec(s, k)),
        lru_touch_spec(s, k).len() == s.len(),
{
    lemma_key_pos(s, k);
    let t = lru_touch_spec(s, k);
    match key_pos(s, k) {
        Some(i) => {
            assert forall|a: int, b: int| 0 <= a < b < t.len() implies (#[trigger] t[a]).0 != (
            #[trigger] t[b]).0 by {
                let sa = if a < i { a } else { a + 1 };
                if b == t.len() - 1 {
                    assert(t[a] == s[sa]);
                    assert(t[b] == s[i]);
                } else {
                    let sb = if b < i { b } else { b + 1 };
                    assert(t[a] == s[sa]);
                    assert(t[b] == s[sb]);
                }
            }
        },
        None => {},
    }
}

/// In a sequence without repeated keys, a key is found where it is.
pub proof fn lemma_unique_pos(s: Seq<(i64, MessageRefView)>, k: i64, i: int)
    requires
        keys_unique(s),
        0 <= i < s.len(),
        s[i].0 == k,
    ensures
        key_pos(s, k) == Some(i),
        lookup(s, k) == Some(s[i].1),
{
    lemma_key_pos(s, k);
    match key_pos(s, k) {
        Some(j) => {
            if j < i {
                assert((s[j]).0 != (s[i]).0);
            } else if i < j {
                assert((s[i]).0 != (s[j]).0);
            }
        },
        None => {
            assert(s[i].0 != k);
        },
    }
}

/// Reading back a write: after `put` stores `v` under `k`, a lookup of
/// `k` finds `v`.
pub proof fn law_put_then_get(m: MessageMap, k: i64, v: MessageRefView)
    requires
        m.wf(),
    ensures
        lookup(lru_put_spec(m.entries(), m.capacity(), k, v), k) == Some(v),
{
    let s = m.entries();
    let t = lru_put_spec(s, m.capacity(), k, v);
    lemma_put_wf(s, m.capacity(), k, v);
    lemma_key_pos(s, k);
    assert(t.last() == (k, v));
    lemma_unique_pos(t, k, t.len() - 1);
}

/// A full cache that stores a new key forgets exactly its least recently
/// used entry: it stays full, the first entry is gone, every other entry
/// is still found with its value.
pub proof fn law_full_put_evicts_least_recent(m: MessageMap, k: i64, v: MessageRefView)
    requires
        m.wf(),
        m.entries().len() == m.capacity(),
        lookup(m.entries(), k) is None,
    ensures
        lru_put_spec(m.entries(), m.capacity(), k, v).len() == m.capacity(),
        lookup(lru_put_spec(m.entries(), m.capacity(), k, v), m.entries()[0].0) is None,
        forall|j: int|
            1 <= j < m.entries().len() ==> lookup(
                lru_put_spec(m.entries(), m.capacity(), k, v),
                #[trigger] m.entries()[j].0,
            ) == Some(m.entries()[j].1),
{
    let s = m.entries();
    let t = lru_put_spec(s, m.capacity(), k, v);
    lemma_key_pos(s, k);
    lemma_put_wf(s, m.capacity(), k, v);
    assert(t =~= s.drop_first().push((k, v)));
    let k0 = s[0].0;
    lemma_key_pos(t, k0);
    match key_pos(t, k0) {
        Some(p) => {
            if p < t.len() - 1 {
                assert(t[p] == s[p + 1]);
                assert((s[0]).0 != (s[p + 1]).0);
            } else {
                assert(t[p].0 == k);
                assert(s[0].0 != k);
            }
        },
        None => {},
    }
    assert forall|j: int| 1 <= j < s.len() implies lookup(t, #[trigger] s[j].0) == Some(s[j].1) by {
        assert(t[j - 1] == s[j]);
        lemma_unique_pos(t, s[j].0, j - 1);
    }
}

/// A hit makes its entry the most recently used: it moves to the end and
/// every key keeps its value.
pub proof fn law_get_promotes(m: MessageMap, k: i64)
    requires
        m.wf(),
        lookup(m.entries(), k) is Some,
    ensures
        lru_touch_spec(m.entries(), k).len() == m.entries().len(),
        lru_touch_spec(m.entries(), k).last() == (k, lookup(m.entries(), k)->0),
        forall|k2: i64| lookup(lru_touch_spec(m.entries(), k), k2) == lookup(m.entries(), k2),
{
    let s = m.entries();
    let t = lru_touch_spec(s, k);
    lemma_key_pos(s, k);
    lemma_touch_wf(s, k);
    let i = key_pos(s, k)->0;
    assert(t =~= s.remove(i).push(s[i]));
    assert forall|k2: i64| lookup(t, k2) == lookup(s, k2) by {
        lemma_key_pos(s, k2);
        match key_pos(s, k2) {
            Some(j) => {
                if j == i {
                    lemma_unique_pos(t, k2, t.len() - 1);
                } else if j < i {
                    assert(t[j] == s[j]);
                    lemma_unique_pos(t, k2, j);
                } else {
                    assert(t[j - 1] == s[j]);
                    lemma_unique_pos(t, k2, j - 1);
                }
            },
            None => {
                lemma_key_pos(t, k2);
                match key_pos(t, k2) {
                    Some(p) => {
                        if p < t.len() - 1 {
                            let sp = if p < i { p } else { p + 1 };
                            assert(t[p] == s[sp]);
                        } else {
                            assert(t[p] == s[i]);
                        }
                    },
                    None => {},
                }
            },
        }
    }
}

/// A recently read entry survives the next eviction: with room for at
/// least two entries, reading `k` and then storing a new key keeps `k`.
pub proof fn law_recent_survives_eviction(m: MessageMap, k: i64, k2: i64, v: MessageRefView)
    requires
        m.wf(),
        m.capacity() >= 2,
        lookup(m.entries(), k) is Some,
        lookup(m.entries(), k2) is None,
    ensures
        lookup(
            lru_put_spec(lru_touch_spec(m.entries(), k), m.capacity(), k2, v),
            k,
        ) == lookup(m.entries(), k),
{
    let s = m.entries();
    law_get_promotes(m, k);
    let t = lru_touch_spec(s, k);
    lemma_touch_wf(s, k);
    assert(lookup(t, k2) is None);
    lemma_key_pos(t, k2);
    let u = lru_put_spec(t, m.capacity(), k2, v);
    lemma_put_wf(t, m.capacity(), k2, v);
    lemma_key_pos(s, k);
    if t.len() >= m.capacity() {
        assert(u =~= t.drop_first().push((k2, v)));
        assert(u[t.len() - 2] == t.last());
        lemma_unique_pos(u, k, t.len() - 2);
    } else {
        assert(u =~= t.push((k2, v)));
        assert(u[t.len() - 1] == t.last());
        lemma_unique_pos(u, k, t.len() - 1);
    }
}

} // verus!
