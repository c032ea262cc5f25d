use vstd::prelude::*;

use crate::text::{chars_eq, chars_lt, chars_of, seq_lt};

verus! {

/// Entries of a string map, as pairs of character sequences.
pub type Entries = Seq<(Seq<char>, Seq<char>)>;

/// Map insertion into a key-sorted entry list: an equal key has its value
/// replaced, otherwise the pair goes before the first greater key.
pub open spec fn dm_insert<V>(m: Seq<(Seq<char>, V)>, k: Seq<char>, v: V) -> Seq<(Seq<char>, V)>
    decreases m.len(),
{
    if m.len() == 0 {
        seq![(k, v)]
    } else if m[0].0 == k {
        seq![(k, v)] + m.drop_first()
    } else if seq_lt(k, m[0].0) {
        seq![(k, v)] + m
    } else {
        seq![m[0]] + dm_insert(m.drop_first(), k, v)
    }
}

/// The value stored under `k`.
pub open spec fn dm_get<V>(m: Seq<(Seq<char>, V)>, k: Seq<char>) -> Option<V>
    decreases m.len(),
{
    if m.len() == 0 {
        None
    } else if m[0].0 == k {
        Some(m[0].1)
    } else {
        dm_get(m.drop_first(), k)
    }
}

/// The value stored under `k`, or the empty string.
pub open spec fn dm_get_or_empty(m: Entries, k: Seq<char>) -> Seq<char> {
    match dm_get(m, k) {
        Some(v) => v,
        None => Seq::empty(),
    }
}

/// Keys strictly increasing in code-point order.
pub open spec fn dm_sorted<V>(m: Seq<(Seq<char>, V)>) -> bool {
    forall|i: int, j: int| 0 <= i < j < m.len() ==> seq_lt(#[trigger] m[i].0, #[trigger] m[j].0)
}

pub open spec fn entry_views(v: Seq<(String, String)>) -> Entries {
    v.map_values(|e: (String, String)| (e.0@, e.1@))
}

/// A map from strings to strings that keeps its keys in increasing order,
/// as a `BTreeMap<String, String>` does.
#[derive(Debug)]
pub struct DataMap {
    entries: Vec<(String, String)>,
}

impl View for DataMap {
    type V = Entries;

    closed spec fn view(&self) -> Entries {
        entry_views(self.entries@)
    }
}

pub proof fn lemma_dm_insert_skip<V>(m: Seq<(Seq<char>, V)>, k: Seq<char>, v: V, i: int)
    requires
        0 <= i < m.len(),
        m[i].0 != k,
        !seq_lt(k, m[i].0),
    ensures
        dm_insert(m.skip(i), k, v) == seq![m[i]] + dm_insert(m.skip(i + 1), k, v),
{
    assert(m.skip(i).drop_first() =~= m.skip(i + 1));
}

pub proof fn lemma_dm_get_skip<V>(m: Seq<(Seq<char>, V)>, k: Seq<char>, i: int)
    requires
        0 <= i < m.len(),
        m[i].0 != k,
    ensures
        dm_get(m.skip(i), k) == dm_get(m.skip(i + 1), k),
{
    assert(m.skip(i).drop_first() =~= m.skip(i + 1));
}

/// Reading back a write: after inserting `v` under `k`, `k` gives `v` and
/// every other key gives what it gave before.
pub proof fn law_insert_then_get<V>(m: Seq<(Seq<char>, V)>, k: Seq<char>, v: V, k2: Seq<char>)
    ensures
        dm_get(dm_insert(m, k, v), k) == Some(v),
        k2 != k ==> dm_get(dm_insert(m, k, v), k2) == dm_get(m, k2),
    decreases m.len(),
{
    let t = dm_insert(m, k, v);
    if m.len() == 0 {
        assert(t.drop_first() =~= m);
    } else {
        if m[0].0 == k {
            assert(t[0] == (k, v));
            assert(t.drop_first() =~= m.drop_first());
        } else if seq_lt(k, m[0].0) {
            assert(t[0] == (k, v));
            assert(t.drop_first() =~= m);
        } else {
            law_insert_then_get(m.drop_first(), k, v, k2);
            assert(t[0] == m[0]);
            assert(t.drop_first() =~= dm_insert(m.drop_first(), k, v));
        }
    }
}

/// The keys after an insertion are the old ones and `k`.
pub proof fn lemma_insert_keys<V>(m: Seq<(Seq<char>, V)>, k: Seq<char>, v: V, i: int)
    requires
        0 <= i < dm_insert(m, k, v).len(),
    ensures
        dm_insert(m, k, v)[i].0 == k || exists|j: int| 0 <= j < m.len() && #[trigger] m[j].0 == dm_insert(m, k, v)[i].0,
    decreases m.len(),
{
    let t = dm_insert(m, k, v);
    if m.len() > 0 {
        if m[0].0 == k {
            if i > 0 {
                assert(t[i] == m[i]);
            }
        } else if seq_lt(k, m[0].0) {
            if i > 0 {
                assert(t[i] == m[i - 1]);
            }
        } else {
            if i == 0 {
                assert(t[0] == m[0]);
            } else {
                lemma_insert_keys(m.drop_first(), k, v, i - 1);
                assert(t[i] == dm_insert(m.drop_first(), k, v)[i - 1]);
                if dm_insert(m.drop_first(), k, v)[i - 1].0 != k {
                    let j = choose|j: int| 0 <= j < m.drop_first().len() && #[trigger] m.drop_first()[j].0 == dm_insert(m.drop_first(), k, v)[i - 1].0;
                    assert(m[j + 1] == m.drop_first()[j]);
                }
            }
        }
    }
}

/// Insertion keeps the keys in strictly increasing order, as a
/// `BTreeMap`'s are.
pub proof fn law_insert_keeps_order<V>(m: Seq<(Seq<char>, V)>, k: Seq<char>, v: V)
    requires
        dm_sorted(m),
    ensures
        dm_sorted(dm_insert(m, k, v)),
    decreases m.len(),
{
    let t = dm_insert(m, k, v);
    if m.len() == 0 {
    } else if m[0].0 == k {
        assert forall|i: int, j: int| 0 <= i < j < t.len() implies seq_lt(#[trigger] t[i].0, #[trigger] t[j].0) by {
            assert(t[j] == m[j]);
            if i > 0 {
                assert(t[i] == m[i]);
            }
        }
    } else if seq_lt(k, m[0].0) {
        assert forall|i: int, j: int| 0 <= i < j < t.len() implies seq_lt(#[trigger] t[i].0, #[trigger] t[j].0) by {
            assert(t[j] == m[j - 1]);
            if i > 0 {
                assert(t[i] == m[i - 1]);
            } else if j - 1 > 0 {
                crate::text::lemma_seq_lt_trans(k, m[0].0, m[j - 1].0);
            }
        }
    } else {
        let rest = m.drop_first();
        assert(dm_sorted(rest)) by {
            assert forall|i: int, j: int| 0 <= i < j < rest.len() implies seq_lt(#[trigger] rest[i].0, #[trigger] rest[j].0) by {
                assert(rest[i] == m[i + 1]);
                assert(rest[j] == m[j + 1]);
            }
        }
        law_insert_keeps_order(rest, k, v);
        crate::text::lemma_seq_lt_total(k, m[0].0);
        let u = dm_insert(rest, k, v);
        assert forall|i: int, j: int| 0 <= i < j < t.len() implies seq_lt(#[trigger] t[i].0, #[trigger] t[j].0) by {
            assert(t[j] == u[j - 1]);
            if i > 0 {
                assert(t[i] == u[i - 1]);
            } else {
                assert(t[0] == m[0]);
                lemma_insert_keys(rest, k, v, j - 1);
                if u[j - 1].0 != k {
                    let q = choose|q: int| 0 <= q < rest.len() && #[trigger] rest[q].0 == u[j - 1].0;
                    assert(rest[q] == m[q + 1]);
                }
            }
        }
    }
}

impl DataMap {
    /// An empty map.
    pub fn new() -> (r: Self)
        ensures
            r@ == Seq::<(Seq<char>, Seq<char>)>::empty(),
    {
        let r = DataMap { entries: Vec::new() };
        assert(r@ =~= Seq::<(Seq<char>, Seq<char>)>::empty());
        r
    }

    /// Number of entries.
    pub fn len(&self) -> (n: usize)
        ensures
            n == self@.len(),
    {
        self.entries.len()
    }

    /// Whether the map holds no entry.
    pub fn is_empty(&self) -> (b: bool)
        ensures
            b == (self@.len() == 0),
    {
        self.entries.len() == 0
    }

    /// The key of the `i`-th entry in key order.
    pub fn key_at(&self, i: usize) -> (k: &String)
        requires
            i < self@.len(),
        ensures
            k@ == self@[i as int].0,
    {
        &self.entries[i].0
    }

    /// The value of the `i`-th entry in key order.
    pub fn value_at(&self, i: usize) -> (v: &String)
        requires
            i < self@.len(),
        ensures
            v@ == self@[i as int].1,
    {
        &self.entries[i].1
    }

    /// Inserts `v` under `k`, replacing a value already there.
    pub fn insert(&mut self, k: String, v: String)
        ensures
            final(self)@ == dm_insert(old(self)@, k@, v@),
    {
        let ghost m = self@;
        let kc = chars_of(k.as_str());
        let mut i: usize = 0;
        assert(m.skip(0) =~= m);
        assert(m.take(0) + m =~= m);
        while i < self.entries.len()
            invariant
                i <= self.entries.len(),
                self@ == m,
                m == old(self)@,
                kc@ == k@,
                dm_insert(m, k@, v@) == m.take(i as int) + dm_insert(m.skip(i as int), k@, v@),
            decreases self.entries.len() - i,
        {
            let ec = chars_of(self.entries[i].0.as_str());
            assert(ec@ == m[i as int].0);
            assert(m.skip(i as int)[0] == m[i as int]);
            if chars_eq(&ec, &kc) {
                assert(m.skip(i as int).drop_first() =~= m.skip(i + 1));
                assert(dm_insert(m.skip(i as int), k@, v@) == seq![(k@, v@)] + m.skip(i + 1));
                self.entries.set(i, (k, v));
                assert(self@ =~= m.take(i as int) + (seq![(k@, v@)] + m.skip(i + 1)));
                return;
            }
            if chars_lt(&kc, &ec) {
                assert(dm_insert(m.skip(i as int), k@, v@) == seq![(k@, v@)] + m.skip(i as int));
                self.entries.insert(i, (k, v));
                assert(self@ =~= m.take(i as int) + (seq![(k@, v@)] + m.skip(i as int)));
                return;
            }
            proof {
                lemma_dm_insert_skip(m, k@, v@, i as int);
                assert(m.take(i as int) + (seq![m[i as int]] + dm_insert(m.skip(i + 1), k@, v@))
                    =~= m.take(i + 1) + dm_insert(m.skip(i + 1), k@, v@));
            }
            i = i + 1;
        }
        assert(m.skip(i as int) =~= Seq::<(Seq<char>, Seq<char>)>::empty());
        self.entries.push((k, v));
        assert(self@ =~= m.take(i as int) + seq![(k@, v@)]);
    }

    /// The value stored under `k`.
    pub fn get(&self, k: &str) -> (r: Option<&String>)
        ensures
            match r {
                Some(v) => dm_get(self@, k@) == Some(v@),
                None => dm_get(self@, k@) is None,
            },
    {
        let ghost m = self@;
        let kc = chars_of(k);
        let mut i: usize = 0;
        assert(m.skip(0) =~= m);
        while i < self.entries.len()
            invariant
                i <= self.entries.len(),
                self@ == m,
                kc@ == k@,
                dm_get(m, k@) == dm_get(m.skip(i as int), k@),
            decreases self.entries.len() - i,
        {
            let ec = chars_of(self.entries[i].0.as_str());
            if chars_eq(&ec, &kc) {
                assert(m.skip(i as int)[0] == m[i as int]);
                return Some(&self.entries[i].1);
            }
            proof {
                lemma_dm_get_skip(m, k@, i as int);
            }
            i = i + 1;
        }
        None
    }

    /// The value stored under `k`, copied, or the empty string
    /// (`get(k).cloned().unwrap_or_default()`).
    pub fn get_or_empty(&self, k: &str) -> (r: String)
        ensures
            r@ == dm_get_or_empty(self@, k@),
    {
        match self.get(k) {
            Some(v) => v.clone(),
            None => String::new(),
        }
    }
}

} // verus!
