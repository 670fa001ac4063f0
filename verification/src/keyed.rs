//! A small map from text keys to values, kept as a list of entries with
//! distinct keys in insertion order.

use vstd::prelude::*;
use crate::text::{lex_less, lex_lt, lemma_lex_total, lemma_lex_transitive, str_eq};

verus! {

/// Whether no two entries of `s` share a key.
pub open spec fn keys_unique<V>(s: Seq<(Seq<char>, V)>) -> bool {
    forall|i: int, j: int|
        0 <= i < s.len() && 0 <= j < s.len() && i != j ==> (#[trigger] s[i]).0 != (
        #[trigger] s[j]).0
}

/// Whether some entry of `s` has key `k`.
pub open spec fn has_key<V>(s: Seq<(Seq<char>, V)>, k: Seq<char>) -> bool {
    exists|i: int| 0 <= i < s.len() && (#[trigger] s[i]).0 == k
}

/// The value stored under `k` in `s`.
pub open spec fn value_of<V>(s: Seq<(Seq<char>, V)>, k: Seq<char>) -> Option<V> {
    if has_key(s, k) {
        Some(s[choose|i: int| 0 <= i < s.len() && (#[trigger] s[i]).0 == k].1)
    } else {
        None
    }
}

pub proof fn lemma_value_at<V>(s: Seq<(Seq<char>, V)>, i: int)
    requires
        keys_unique(s),
        0 <= i < s.len(),
    ensures
        value_of(s, s[i].0) == Some(s[i].1),
{
    let k = s[i].0;
    assert(has_key(s, k));
    let j = choose|j: int| 0 <= j < s.len() && (#[trigger] s[j]).0 == k;
    assert(j == i);
}

/// Whether `order` lists every position of `s` exactly once, by strictly
/// increasing key.
pub open spec fn is_key_order<V>(s: Seq<(Seq<char>, V)>, order: Seq<usize>) -> bool {
    &&& order.len() == s.len()
    &&& forall|j: int| 0 <= j < order.len() ==> (#[trigger] order[j]) < s.len()
    &&& forall|a: int, b: int|
        0 <= a < b < order.len() ==> lex_lt(
            s[(#[trigger] order[a]) as int].0,
            s[(#[trigger] order[b]) as int].0,
        )
    &&& forall|i: int| 0 <= i < s.len() ==> #[trigger] listed(order, i)
}

/// Whether position `i` occurs in `order`.
pub open spec fn listed(order: Seq<usize>, i: int) -> bool {
    exists|j: int| 0 <= j < order.len() && order[j] == i
}

/// Text-keyed map with distinct keys.
pub struct Keyed<V> {
    items: Vec<(String, V)>,
}

impl<V> View for Keyed<V> {
    type V = Seq<(Seq<char>, V)>;

    closed spec fn view(&self) -> Seq<(Seq<char>, V)> {
        self.items@.map_values(|e: (String, V)| (e.0@, e.1))
    }
}

impl<V> Keyed<V> {
    /// Whether the keys are distinct.
    pub open spec fn wf(&self) -> bool {
        keys_unique(self@)
    }

    /// An empty map.
    pub fn new() -> (r: Self)
        ensures
            r.wf(),
            r@ == Seq::<(Seq<char>, V)>::empty(),
    {
        let r = Keyed { items: Vec::new() };
        assert(r@ =~= Seq::<(Seq<char>, V)>::empty());
        r
    }

    /// Number of entries.
    pub fn len(&self) -> (n: usize)
        ensures
            n == self@.len(),
    {
        self.items.len()
    }

    /// Whether there are no entries.
    pub fn is_empty(&self) -> (b: bool)
        ensures
            b == (self@.len() == 0),
    {
        self.items.len() == 0
    }

    /// The entry at position `i`.
    pub fn entry(&self, i: usize) -> (r: (&String, &V))
        requires
            i < self@.len(),
        ensures
            r.0@ == self@[i as int].0,
            *r.1 == self@[i as int].1,
    {
        let e = &self.items[i];
        (&e.0, &e.1)
    }

    /// The positions of the entries, ordered by key.
    pub fn key_order(&self) -> (r: Vec<usize>)
        requires
            self.wf(),
        ensures
            is_key_order(self@, r@),
    {
        let mut out: Vec<usize> = Vec::new();
        let mut i: usize = 0;
        while i < self.items.len()
            invariant
                self.wf(),
                i <= self@.len(),
                out@.len() == i,
                forall|j: int| 0 <= j < out@.len() ==> (#[trigger] out@[j]) < i,
                forall|a: int, b: int|
                    0 <= a < b < out@.len() ==> lex_lt(
                        self@[(#[trigger] out@[a]) as int].0,
                        self@[(#[trigger] out@[b]) as int].0,
                    ),
                forall|k: int| 0 <= k < i ==> #[trigger] listed(out@, k),
            decreases self@.len() - i,
        {
            let key = self.items[i].0.as_str();
            assert(key@ == self@[i as int].0);
            let mut p: usize = 0;
            while p < out.len() && !lex_less(key, self.items[out[p]].0.as_str())
                invariant
                    i < self@.len(),
                    key@ == self@[i as int].0,
                    p <= out@.len(),
                    forall|j: int| 0 <= j < out@.len() ==> (#[trigger] out@[j]) < i,
                    forall|q: int| 0 <= q < p ==> !lex_lt(key@, self@[(#[trigger] out@[q]) as int].0),
                decreases out@.len() - p,
            {
                assert(self.items[out[p as int] as int].0@ == self@[out@[p as int] as int].0);
                p += 1;
            }
            proof {
                if p < out@.len() {
                    assert(self.items[out[p as int] as int].0@ == self@[out@[p as int] as int].0);
                }
            }
            let ghost old_out = out@;
            out.insert(p, i);
            proof {
                let s = out@;
                let sv = self@;
                assert(s =~= old_out.insert(p as int, i));
                assert forall|a: int, b: int| 0 <= a < b < s.len() implies lex_lt(
                    sv[(#[trigger] s[a]) as int].0,
                    sv[(#[trigger] s[b]) as int].0,
                ) by {
                    let x = sv[i as int].0;
                    if a < p && b < p {
                        assert(s[a] == old_out[a] && s[b] == old_out[b]);
                    } else if a < p && b == p {
                        assert(s[a] == old_out[a]);
                        assert(old_out[a] < i);
                        assert(sv[old_out[a] as int].0 != x);
                        lemma_lex_total(x, sv[old_out[a] as int].0);
                    } else if a < p && b > p {
                        assert(s[a] == old_out[a] && s[b] == old_out[b - 1]);
                    } else if a == p {
                        assert(s[b] == old_out[b - 1]);
                        if b - 1 == p {
                        } else {
                            assert(lex_lt(sv[old_out[p as int] as int].0, sv[old_out[b - 1] as int].0));
                            lemma_lex_transitive(x, sv[old_out[p as int] as int].0, sv[old_out[b - 1] as int].0);
                        }
                    } else {
                        assert(s[a] == old_out[a - 1] && s[b] == old_out[b - 1]);
                    }
                }
                assert forall|j: int| 0 <= j < s.len() implies (#[trigger] s[j]) < i + 1 by {
                    if j < p {
                        assert(s[j] == old_out[j]);
                    } else if j > p {
                        assert(s[j] == old_out[j - 1]);
                    }
                }
                assert forall|k: int| 0 <= k < i + 1 implies #[trigger] listed(s, k) by {
                    if k == i {
                        assert(s[p as int] == k);
                    } else {
                        assert(listed(old_out, k));
                        let j = choose|j: int| 0 <= j < old_out.len() && old_out[j] == k;
                        if j < p {
                            assert(s[j] == k);
                        } else {
                            assert(s[j + 1] == k);
                        }
                    }
                }
            }
            i += 1;
        }
        out
    }

    fn index_of(&self, k: &str) -> (r: Option<usize>)
        ensures
            match r {
                Some(i) => i < self@.len() && self@[i as int].0 == k@,
                None => !has_key(self@, k@),
            },
    {
        let mut i: usize = 0;
        while i < self.items.len()
            invariant
                i <= self.items.len(),
                forall|j: int| 0 <= j < i ==> (#[trigger] self@[j]).0 != k@,
            decreases self.items.len() - i,
        {
            if str_eq(self.items[i].0.as_str(), k) {
                assert(self@[i as int].0 == k@);
                return Some(i);
            }
            assert(self@[i as int].0 != k@);
            i += 1;
        }
        None
    }

    /// Replaces the value at position `i`, keeping its key, and hands back
    /// the value it held.
    pub fn update_at(&mut self, i: usize, v: V) -> (prev: V)
        requires
            old(self).wf(),
            i < old(self)@.len(),
        ensures
            final(self).wf(),
            final(self)@ == old(self)@.update(i as int, (old(self)@[i as int].0, v)),
            prev == old(self)@[i as int].1,
    {
        let (k, prev) = self.items.remove(i);
        self.items.insert(i, (k, v));
        assert(self@ =~= old(self)@.update(i as int, (old(self)@[i as int].0, v)));
        proof {
            let s = self@;
            let o = old(self)@;
            assert forall|a: int, b: int|
                0 <= a < s.len() && 0 <= b < s.len() && a != b implies (#[trigger] s[a]).0 != (
                #[trigger] s[b]).0 by {
                assert(s[a].0 == o[a].0 && s[b].0 == o[b].0);
            }
        }
        prev
    }

    /// Whether `k` has an entry.
    pub fn contains_key(&self, k: &str) -> (b: bool)
        ensures
            b == has_key(self@, k@),
    {
        self.index_of(k).is_some()
    }

    /// The value stored under `k`.
    pub fn get(&self, k: &str) -> (r: Option<&V>)
        requires
            self.wf(),
        ensures
            match r {
                Some(v) => value_of(self@, k@) == Some(*v),
                None => value_of(self@, k@) is None,
            },
    {
        match self.index_of(k) {
            Some(i) => {
                proof {
                    lemma_value_at(self@, i as int);
                }
                Some(&self.items[i].1)
            },
            None => None,
        }
    }

    /// Stores `v` under `k`, replacing what was there.
    pub fn insert(&mut self, k: String, v: V)
        requires
            old(self).wf(),
        ensures
            final(self).wf(),
            value_of(final(self)@, k@) == Some(v),
            forall|h: Seq<char>| h != k@ ==> value_of(final(self)@, h) == value_of(old(self)@, h),
    {
        let ghost e = (k@, v);
        let ghost mut pos: int = 0;
        match self.index_of(k.as_str()) {
            Some(i) => {
                self.items[i] = (k, v);
                proof {
                    pos = i as int;
                }
                assert(self@ =~= old(self)@.update(i as int, e));
            },
            None => {
                self.items.push((k, v));
                proof {
                    pos = old(self)@.len() as int;
                }
                assert(self@ =~= old(self)@.push(e));
            },
        }
        proof {
            let s = self@;
            let o = old(self)@;
            assert(0 <= pos < s.len() && s[pos] == e);
            assert forall|a: int, b: int|
                0 <= a < s.len() && 0 <= b < s.len() && a != b implies (#[trigger] s[a]).0 != (
                #[trigger] s[b]).0 by {
                if a != pos && b != pos {
                    assert(s[a] == o[a] && s[b] == o[b]);
                } else if a == pos {
                    assert(s[b] == o[b]);
                    if pos < o.len() {
                        assert(o[pos].0 == e.0);
                    }
                } else {
                    assert(s[a] == o[a]);
                    if pos < o.len() {
                        assert(o[pos].0 == e.0);
                    }
                }
            }
            lemma_value_at(s, pos);
            assert forall|h: Seq<char>| h != e.0 implies value_of(s, h) == value_of(o, h) by {
                if has_key(o, h) {
                    let j = choose|j: int| 0 <= j < o.len() && (#[trigger] o[j]).0 == h;
                    lemma_value_at(o, j);
                    assert(j != pos);
                    assert(s[j] == o[j]);
                    lemma_value_at(s, j);
                } else {
                    assert(!has_key(s, h)) by {
                        if has_key(s, h) {
                            let j = choose|j: int| 0 <= j < s.len() && (#[trigger] s[j]).0 == h;
                            assert(j != pos);
                            assert(j < o.len() && o[j] == s[j]);
                        }
                    }
                }
            }
        }
    }

    /// Removes the entry of `k`, handing back its value.
    pub fn remove(&mut self, k: &str) -> (r: Option<V>)
        requires
            old(self).wf(),
        ensures
            final(self).wf(),
            r == value_of(old(self)@, k@),
            value_of(final(self)@, k@) is None,
            forall|h: Seq<char>| h != k@ ==> value_of(final(self)@, h) == value_of(old(self)@, h),
            r is None ==> final(self)@ == old(self)@,
    {
        match self.index_of(k) {
            None => {
                assert(value_of(self@, k@) is None);
                None
            },
            Some(i) => {
                proof {
                    lemma_value_at(self@, i as int);
                }
                let gone = self.items.remove(i);
                proof {
                    let o = old(self)@;
                    let s = self@;
                    assert(s =~= o.remove(i as int));
                    assert(gone.1 == o[i as int].1);
                    assert forall|a: int, b: int|
                        0 <= a < s.len() && 0 <= b < s.len() && a != b implies (
                        #[trigger] s[a]).0 != (#[trigger] s[b]).0 by {
                        let oa = if a < i { a } else { a + 1 };
                        let ob = if b < i { b } else { b + 1 };
                        assert(s[a] == o[oa] && s[b] == o[ob]);
                    }
                    assert(!has_key(s, k@)) by {
                        if has_key(s, k@) {
                            let j = choose|j: int| 0 <= j < s.len() && (#[trigger] s[j]).0 == k@;
                            let oj = if j < i { j } else { j + 1 };
                            assert(s[j] == o[oj]);
                        }
                    }
                    assert forall|h: Seq<char>| h != k@ implies value_of(s, h) == value_of(o, h) by {
                        if has_key(o, h) {
                            let j = choose|j: int| 0 <= j < o.len() && (#[trigger] o[j]).0 == h;
                            lemma_value_at(o, j);
                            assert(j != i);
                            let sj = if j < i { j } else { j - 1 };
                            assert(s[sj] == o[j]);
                            lemma_value_at(s, sj);
                        } else {
                            assert(!has_key(s, h)) by {
                                if has_key(s, h) {
                                    let j = choose|j: int| 0 <= j < s.len() && (#[trigger] s[j]).0 == h;
                                    let oj = if j < i { j } else { j + 1 };
                                    assert(s[j] == o[oj]);
                                }
                            }
                        }
                    }
                }
                Some(gone.1)
            },
        }
    }
}

/// The keys of `s`.
pub open spec fn key_set<V>(s: Seq<(Seq<char>, V)>) -> Set<Seq<char>> {
    s.map_values(|e: (Seq<char>, V)| e.0).to_set()
}

/// With distinct keys, there are as many keys as entries.
pub proof fn lemma_key_set<V>(s: Seq<(Seq<char>, V)>)
    requires
        keys_unique(s),
    ensures
        key_set(s).finite(),
        key_set(s).len() == s.len(),
        forall|h: Seq<char>| key_set(s).contains(h) <==> has_key(s, h),
{
    let ks = s.map_values(|e: (Seq<char>, V)| e.0);
    assert(ks.no_duplicates()) by {
        assert forall|i: int, j: int| 0 <= i < ks.len() && 0 <= j < ks.len() && i != j implies ks[i]
            != ks[j] by {
            assert(ks[i] == s[i].0 && ks[j] == s[j].0);
        }
    }
    ks.unique_seq_to_set();
    vstd::seq_lib::seq_to_set_is_finite(ks);
    assert forall|h: Seq<char>| key_set(s).contains(h) <==> has_key(s, h) by {
        if has_key(s, h) {
            let i = choose|i: int| 0 <= i < s.len() && (#[trigger] s[i]).0 == h;
            assert(ks[i] == h);
        }
        if key_set(s).contains(h) {
            let i = choose|i: int| 0 <= i < ks.len() && ks[i] == h;
            assert(s[i].0 == h);
        }
    }
}

/// Two tables with distinct keys that agree on every key but `k`, which
/// only the second has, differ in size by one.
pub proof fn lemma_key_count<V>(a: Seq<(Seq<char>, V)>, b: Seq<(Seq<char>, V)>, k: Seq<char>)
    requires
        keys_unique(a),
        keys_unique(b),
        has_key(b, k),
        forall|h: Seq<char>| h != k ==> (has_key(b, h) <==> has_key(a, h)),
    ensures
        !has_key(a, k) ==> b.len() == a.len() + 1,
        has_key(a, k) ==> b.len() == a.len(),
{
    lemma_key_set(a);
    lemma_key_set(b);
    if has_key(a, k) {
        assert forall|h: Seq<char>| key_set(a).contains(h) == key_set(b).contains(h) by {
            assert(key_set(a).contains(h) == has_key(a, h));
            assert(key_set(b).contains(h) == has_key(b, h));
        }
        assert(key_set(a) =~= key_set(b));
    } else {
        assert forall|h: Seq<char>| key_set(b).contains(h) == key_set(a).insert(k).contains(h) by {
            assert(key_set(a).contains(h) == has_key(a, h));
            assert(key_set(b).contains(h) == has_key(b, h));
        }
        assert(key_set(b) =~= key_set(a).insert(k));
    }
}

/// Inserting under key `k` adds one entry exactly when `k` was absent.
pub proof fn lemma_insert_len<V>(
    before: Seq<(Seq<char>, V)>,
    after: Seq<(Seq<char>, V)>,
    k: Seq<char>,
    known: bool,
)
    requires
        keys_unique(before),
        keys_unique(after),
        known == has_key(before, k),
        has_key(after, k),
        forall|h: Seq<char>| h != k ==> value_of(after, h) == value_of(before, h),
    ensures
        known ==> after.len() == before.len(),
        !known ==> after.len() == before.len() + 1,
{
    assert forall|h: Seq<char>| h != k implies (has_key(after, h) <==> has_key(before, h)) by {
        assert(value_of(after, h) == value_of(before, h));
    }
    lemma_key_count(before, after, k);
}

/// Removing the entry under a present key takes away exactly one entry.
pub proof fn lemma_remove_len<V>(before: Seq<(Seq<char>, V)>, after: Seq<(Seq<char>, V)>, k: Seq<char>)
    requires
        keys_unique(before),
        keys_unique(after),
        has_key(before, k),
        !has_key(after, k),
        forall|h: Seq<char>| h != k ==> value_of(after, h) == value_of(before, h),
    ensures
        after.len() + 1 == before.len(),
{
    assert forall|h: Seq<char>| h != k implies (has_key(after, h) <==> has_key(before, h)) by {
        assert(value_of(after, h) == value_of(before, h));
    }
    lemma_key_count(after, before, k);
}

} // verus!
