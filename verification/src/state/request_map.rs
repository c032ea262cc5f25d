use vstd::prelude::*;
use vstd::hash_map::StringHashMap;

use crate::text::{nat_text, u64_chars, chars_of, push_chars, string_from_chars};
use crate::types::RequestRef;

verus! {

/// The flag a request gets: its kind, `:`, and its number.
pub open spec fn flag_of(kind: Seq<char>, n: nat) -> Seq<char> {
    kind + seq![':'] + nat_text(n)
}

/// Two flags are equal only when their numbers are.
pub proof fn lemma_flag_numbers(k1: Seq<char>, n1: nat, k2: Seq<char>, n2: nat)
    requires
        flag_of(k1, n1) == flag_of(k2, n2),
    ensures
        n1 == n2,
{
    let s = flag_of(k1, n1);
    let l1 = k1.len() as int;
    let l2 = k2.len() as int;
    crate::text::lemma_nat_text_digits(n1);
    crate::text::lemma_nat_text_digits(n2);
    let t1 = k1 + seq![':'];
    let t2 = k2 + seq![':'];
    assert(s == t1 + nat_text(n1));
    assert(s == t2 + nat_text(n2));
    assert(t1[l1] == ':');
    assert(t2[l2] == ':');
    if l1 < l2 {
        assert(s[l2] == t2[l2]);
        assert(s[l2] == nat_text(n1)[l2 - (l1 + 1)]);
        assert(crate::text::is_digit(nat_text(n1)[l2 - (l1 + 1)]));
    } else if l2 < l1 {
        assert(s[l1] == t1[l1]);
        assert(s[l1] == nat_text(n2)[l1 - (l2 + 1)]);
        assert(crate::text::is_digit(nat_text(n2)[l1 - (l2 + 1)]));
    } else {
        assert(nat_text(n1) =~= s.subrange(l1 + 1, s.len() as int));
        assert(nat_text(n2) =~= s.subrange(l2 + 1, s.len() as int));
        crate::text::lemma_nat_text_injective(n1, n2);
    }
}

/// Flags with different numbers differ, whatever their kinds: no two
/// requests share a flag.
pub proof fn law_flags_distinct(k1: Seq<char>, n1: nat, k2: Seq<char>, n2: nat)
    requires
        n1 != n2,
    ensures
        flag_of(k1, n1) != flag_of(k2, n2),
{
    if flag_of(k1, n1) == flag_of(k2, n2) {
        lemma_flag_numbers(k1, n1, k2, n2);
    }
}

/// Pending requests by flag; each flag carries a number no greater than
/// the count of requests put so far.
pub struct RequestMap {
    counter: u64,
    items: StringHashMap<RequestRef>,
}

impl RequestMap {
    /// How many requests have been put.
    pub closed spec fn count(&self) -> nat {
        self.counter as nat
    }

    /// The pending requests by flag.
    pub closed spec fn items(&self) -> Map<Seq<char>, RequestRef> {
        self.items@
    }

    /// Every flag is the flag of its request under a number already handed out.
    pub open spec fn wf(&self) -> bool {
        forall|f: Seq<char>|
            #![trigger self.items().dom().contains(f)]
            self.items().dom().contains(f) ==> exists|n: nat|
                1 <= n <= self.count() && f == flag_of(self.items()[f].kind@, n)
    }

    /// An empty map.
    pub fn new() -> (r: Self)
        ensures
            r.wf(),
            r.count() == 0,
            r.items() == Map::<Seq<char>, RequestRef>::empty(),
    {
        RequestMap { counter: 0, items: StringHashMap::new() }
    }

    /// Stores `r` under a new flag `kind:n`, `n` counting the requests put
    /// so far, and returns the flag.
    pub fn put(&mut self, r: RequestRef) -> (flag: String)
        requires
            old(self).wf(),
            old(self).count() < u64::MAX,
        ensures
            final(self).wf(),
            flag@ == flag_of(r.kind@, old(self).count() + 1),
            !old(self).items().dom().contains(flag@),
            final(self).count() == old(self).count() + 1,
            final(self).items() == old(self).items().insert(flag@, r),
    {
        let n = self.counter + 1;
        let mut t = chars_of(r.kind.as_str());
        t.push(':');
        let digits = u64_chars(n);
        push_chars(&mut t, &digits);
        let flag = string_from_chars(t.as_slice());
        assert(flag@ =~= flag_of(r.kind@, n as nat));
        proof {
            if self.items().dom().contains(flag@) {
                let m = choose|m: nat|
                    1 <= m <= self.count() && flag@ == flag_of(self.items()[flag@].kind@, m);
                lemma_flag_numbers(r.kind@, n as nat, self.items@[flag@].kind@, m);
            }
        }
        let ghost old_items = self.items@;
        self.counter = n;
        self.items.insert(flag.clone(), r);
        proof {
            assert forall|f: Seq<char>|
                #![trigger self.items@.dom().contains(f)]
                self.items@.dom().contains(f) implies exists|m: nat|
                    1 <= m <= self.counter && f == flag_of(self.items@[f].kind@, m) by {
                if f == flag@ {
                    assert(f == flag_of(self.items@[f].kind@, n as nat));
                } else {
                    assert(old(self).items().dom().contains(f));
                    let m = choose|m: nat|
                        1 <= m <= old(self).count() && f == flag_of(old(self).items()[f].kind@, m);
                    assert(f == flag_of(self.items@[f].kind@, m));
                }
            }
        }
        flag
    }

    /// Whether another request can still get a fresh number.
    pub fn has_room(&self) -> (b: bool)
        ensures
            b == (self.count() < u64::MAX),
    {
        self.counter < u64::MAX
    }

    /// A copy of the request stored under `flag`.
    pub fn get(&self, flag: &str) -> (r: Option<RequestRef>)
        ensures
            match r {
                Some(v) => self.items().dom().contains(flag@) && v == self.items()[flag@],
                None => !self.items().dom().contains(flag@),
            },
    {
        match self.items.get(flag) {
            Some(v) => Some(v.clone()),
            None => None,
        }
    }
}

impl Default for RequestMap {
    fn default() -> (r: Self)
        ensures
            r.wf(),
            r.count() == 0,
            r.items() == Map::<Seq<char>, RequestRef>::empty(),
    {
        RequestMap::new()
    }
}

/// Reading back a write: the flag a new request gets is free, the request
/// is what is found under it afterwards, and every other flag keeps its
/// request.
pub proof fn law_put_then_get(m: RequestMap, r: RequestRef, other: Seq<char>)
    requires
        m.wf(),
        other != flag_of(r.kind@, m.count() + 1),
    ensures
        !m.items().dom().contains(flag_of(r.kind@, m.count() + 1)),
        m.items().insert(flag_of(r.kind@, m.count() + 1), r)[flag_of(r.kind@, m.count() + 1)] == r,
        m.items().insert(flag_of(r.kind@, m.count() + 1), r).dom().contains(other)
            == m.items().dom().contains(other),
        m.items().dom().contains(other) ==> m.items().insert(flag_of(r.kind@, m.count() + 1), r)[other]
            == m.items()[other],
{
    let flag = flag_of(r.kind@, m.count() + 1);
    if m.items().dom().contains(flag) {
        let n = choose|n: nat| 1 <= n <= m.count() && flag == flag_of(m.items()[flag].kind@, n);
        lemma_flag_numbers(r.kind@, m.count() + 1, m.items()[flag].kind@, n);
    }
}

/// The flag the `i`-th of the requests `rs` put into a new map gets.
pub open spec fn nth_flag(rs: Seq<RequestRef>, i: int) -> Seq<char> {
    flag_of(rs[i].kind@, (i + 1) as nat)
}

/// The pending requests after putting `rs` in turn into a new map.
pub open spec fn items_after_puts(rs: Seq<RequestRef>) -> Map<Seq<char>, RequestRef>
    decreases rs.len(),
{
    if rs.len() == 0 {
        Map::empty()
    } else {
        items_after_puts(rs.drop_last()).insert(nth_flag(rs, rs.len() - 1), rs.last())
    }
}

proof fn lemma_items_after_puts(rs: Seq<RequestRef>)
    ensures
        forall|i: int|
            0 <= i < rs.len() ==> items_after_puts(rs).dom().contains(#[trigger] nth_flag(rs, i))
                && items_after_puts(rs)[nth_flag(rs, i)] == rs[i],
        forall|f: Seq<char>|
            #[trigger] items_after_puts(rs).dom().contains(f) ==> exists|i: int|
                0 <= i < rs.len() && f == nth_flag(rs, i),
    decreases rs.len(),
{
    if rs.len() > 0 {
        let init = rs.drop_last();
        let n = rs.len() - 1;
        lemma_items_after_puts(init);
        assert forall|i: int| 0 <= i < init.len() implies #[trigger] nth_flag(init, i) == nth_flag(
            rs,
            i,
        ) by {
            assert(init[i] == rs[i]);
        }
        assert forall|i: int|
            0 <= i < rs.len() implies items_after_puts(rs).dom().contains(#[trigger] nth_flag(rs, i))
            && items_after_puts(rs)[nth_flag(rs, i)] == rs[i] by {
            if i < n {
                assert(nth_flag(init, i) == nth_flag(rs, i));
                law_flags_distinct(rs[i].kind@, (i + 1) as nat, rs[n].kind@, (n + 1) as nat);
            }
        }
        assert forall|f: Seq<char>| #[trigger]
            items_after_puts(rs).dom().contains(f) implies exists|i: int|
            0 <= i < rs.len() && f == nth_flag(rs, i) by {
            if f != nth_flag(rs, n) {
                assert(items_after_puts(init).dom().contains(f));
                let i = choose|i: int| 0 <= i < init.len() && f == nth_flag(init, i);
                assert(nth_flag(init, i) == nth_flag(rs, i));
            }
        }
    }
}

/// A request map after a sequence of `put` calls on a new map: each
/// request is found under the flag its `put` returned, no other flag finds
/// anything, and no two `put` calls returned the same flag.
pub proof fn law_puts_then_get(ms: Seq<RequestMap>, rs: Seq<RequestRef>)
    requires
        ms.len() == rs.len() + 1,
        ms[0].count() == 0,
        ms[0].items() == Map::<Seq<char>, RequestRef>::empty(),
        forall|i: int|
            0 <= i < rs.len() ==> (#[trigger] ms[i + 1]).count() == ms[i].count() + 1
                && ms[i + 1].items() == ms[i].items().insert(
                flag_of(rs[i].kind@, ms[i].count() + 1),
                rs[i],
            ),
    ensures
        ms.last().count() == rs.len(),
        ms.last().items() == items_after_puts(rs),
        forall|i: int|
            0 <= i < rs.len() ==> ms.last().items().dom().contains(#[trigger] nth_flag(rs, i))
                && ms.last().items()[nth_flag(rs, i)] == rs[i],
        forall|f: Seq<char>|
            ms.last().items().dom().contains(f) <==> exists|i: int|
                0 <= i < rs.len() && f == #[trigger] nth_flag(rs, i),
        forall|i: int, j: int| 0 <= i < j < rs.len() ==> nth_flag(rs, i) != nth_flag(rs, j),
    decreases rs.len(),
{
    if rs.len() > 0 {
        let n = rs.len() - 1;
        let pm = ms.drop_last();
        let pr = rs.drop_last();
        assert forall|i: int| 0 <= i < pr.len() implies (#[trigger] pm[i + 1]).count() == pm[i].count() + 1
            && pm[i + 1].items() == pm[i].items().insert(flag_of(pr[i].kind@, pm[i].count() + 1), pr[i]) by {
            assert(ms[i + 1].count() == ms[i].count() + 1);
        }
        law_puts_then_get(pm, pr);
        assert(pm.last() == ms[n]);
        assert(ms[n + 1].count() == ms[n].count() + 1);
        assert forall|i: int| 0 <= i < pr.len() implies #[trigger] nth_flag(pr, i) == nth_flag(rs, i) by {
            assert(pr[i] == rs[i]);
        }
        assert(items_after_puts(rs) == items_after_puts(pr).insert(nth_flag(rs, n), rs[n]));
    }
    lemma_items_after_puts(rs);
    assert forall|i: int, j: int| 0 <= i < j < rs.len() implies nth_flag(rs, i) != nth_flag(rs, j) by {
        law_flags_distinct(rs[i].kind@, (i + 1) as nat, rs[j].kind@, (j + 1) as nat);
    }
    assert forall|f: Seq<char>|
        (exists|i: int| 0 <= i < rs.len() && f == #[trigger] nth_flag(rs, i)) implies ms.last().items().dom().contains(
        f,
    ) by {
        let i = choose|i: int| 0 <= i < rs.len() && f == #[trigger] nth_flag(rs, i);
        assert(items_after_puts(rs).dom().contains(nth_flag(rs, i)));
    }
}

/// A flag is the request's kind, a colon, and the request's number in
/// decimal: the first friend request of a new map is `friend:1`.
pub proof fn law_flag_text(kind: Seq<char>, n: nat)
    ensures
        flag_of(kind, n) == kind + seq![':'] + nat_text(n),
        flag_of(seq!['f', 'r', 'i', 'e', 'n', 'd'], 1) == seq!['f', 'r', 'i', 'e', 'n', 'd', ':', '1'],
{
    assert(nat_text(1) == seq!['1']);
    assert(flag_of(seq!['f', 'r', 'i', 'e', 'n', 'd'], 1) =~= seq!['f', 'r', 'i', 'e', 'n', 'd', ':', '1']);
}

} // verus!
