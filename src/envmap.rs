//! A map from variable names to values that keeps its entries in key order.
use vstd::prelude::*;

use crate::ambient::{opt_view, pairs_view};

verus! {

/// Lexicographic order on character sequences, by code point; this is the
/// order of `String`'s `Ord`.
pub open spec fn chars_lt(a: Seq<char>, b: Seq<char>) -> bool
    decreases a.len(),
{
    if a.len() == 0 {
        b.len() > 0
    } else if b.len() == 0 {
        false
    } else if a[0] != b[0] {
        a[0] < b[0]
    } else {
        chars_lt(a.drop_first(), b.drop_first())
    }
}

pub proof fn lemma_chars_lt_irreflexive(a: Seq<char>)
    ensures
        !chars_lt(a, a),
    decreases a.len(),
{
    if a.len() > 0 {
        lemma_chars_lt_irreflexive(a.drop_first());
    }
}

pub proof fn lemma_chars_lt_transitive(a: Seq<char>, b: Seq<char>, c: Seq<char>)
    requires
        chars_lt(a, b),
        chars_lt(b, c),
    ensures
        chars_lt(a, c),
    decreases a.len(),
{
    if a.len() > 0 && b.len() > 0 && c.len() > 0 {
        if a[0] == b[0] && b[0] == c[0] {
            lemma_chars_lt_transitive(a.drop_first(), b.drop_first(), c.drop_first());
        }
    }
}

pub proof fn lemma_chars_lt_total(a: Seq<char>, b: Seq<char>)
    requires
        a != b,
    ensures
        chars_lt(a, b) || chars_lt(b, a),
    decreases a.len(),
{
    if a.len() > 0 && b.len() > 0 && a[0] == b[0] {
        if a.drop_first() == b.drop_first() {
            assert(a =~= seq![a[0]] + a.drop_first());
            assert(b =~= seq![b[0]] + b.drop_first());
        }
        lemma_chars_lt_total(a.drop_first(), b.drop_first());
    } else if a.len() > 0 && b.len() > 0 {
    } else if a.len() == 0 && b.len() == 0 {
        assert(a =~= b);
    }
}

/// Decides `chars_lt`.
pub fn str_less(a: &str, b: &str) -> (r: bool)
    ensures
        r == chars_lt(a@, b@),
{
    let x = crate::text::chars_of(a);
    let y = crate::text::chars_of(b);
    let mut k: usize = 0;
    assert(x@.subrange(0, x@.len() as int) =~= x@);
    assert(y@.subrange(0, y@.len() as int) =~= y@);
    while k < x.len() && k < y.len() && x[k] == y[k]
        invariant
            k <= x.len(),
            k <= y.len(),
            chars_lt(x@, y@) == chars_lt(
                x@.subrange(k as int, x@.len() as int),
                y@.subrange(k as int, y@.len() as int),
            ),
        decreases x.len() - k,
    {
        let ghost xs = x@.subrange(k as int, x@.len() as int);
        let ghost ys = y@.subrange(k as int, y@.len() as int);
        assert(xs.drop_first() =~= x@.subrange(k + 1, x@.len() as int));
        assert(ys.drop_first() =~= y@.subrange(k + 1, y@.len() as int));
        k += 1;
    }
    let ghost xs = x@.subrange(k as int, x@.len() as int);
    let ghost ys = y@.subrange(k as int, y@.len() as int);
    assert(k < x.len() ==> xs[0] == x@[k as int]);
    assert(k < y.len() ==> ys[0] == y@[k as int]);
    if k < x.len() && k < y.len() {
        x[k] < y[k]
    } else {
        k == x.len() && k < y.len()
    }
}

/// Entries in strictly increasing key order.
pub open spec fn sorted_keys(s: Seq<(String, String)>) -> bool {
    forall|i: int, j: int| 0 <= i < j < s.len() ==> chars_lt(#[trigger] s[i].0@, #[trigger] s[j].0@)
}

/// A position of an entry with key `k`.
pub open spec fn key_index(s: Seq<(String, String)>, k: Seq<char>) -> int {
    choose|i: int| 0 <= i < s.len() && s[i].0@ == k
}

/// The map that a list of entries with distinct keys stands for.
pub open spec fn entries_map(s: Seq<(String, String)>) -> Map<Seq<char>, Seq<char>> {
    Map::new(
        |k: Seq<char>| exists|i: int| 0 <= i < s.len() && s[i].0@ == k,
        |k: Seq<char>| s[key_index(s, k)].1@,
    )
}

/// The entries of `m`, in increasing key order.
pub open spec fn in_key_order(s: Seq<(Seq<char>, Seq<char>)>, m: Map<Seq<char>, Seq<char>>) -> bool {
    &&& forall|i: int, j: int| 0 <= i < j < s.len() ==> chars_lt(#[trigger] s[i].0, #[trigger] s[j].0)
    &&& forall|i: int| 0 <= i < s.len() ==> m.contains_key(#[trigger] s[i].0) && m[s[i].0] == s[i].1
    &&& forall|k: Seq<char>| m.contains_key(k) ==> exists|i: int| 0 <= i < s.len() && #[trigger] s[i].0 == k
}

proof fn lemma_sorted_lookup(s: Seq<(String, String)>, i: int)
    requires
        sorted_keys(s),
        0 <= i < s.len(),
    ensures
        entries_map(s).contains_key(s[i].0@),
        entries_map(s)[s[i].0@] == s[i].1@,
{
    let k = s[i].0@;
    assert(exists|j: int| 0 <= j < s.len() && s[j].0@ == k);
    let j = key_index(s, k);
    assert(entries_map(s)[k] == s[j].1@);
    lemma_chars_lt_irreflexive(k);
    if j < i {
        assert(chars_lt(s[j].0@, s[i].0@));
    } else if j > i {
        assert(chars_lt(s[i].0@, s[j].0@));
    }
}

/// Variables and their values, kept in key order.
pub struct EnvMap {
    entries: Vec<(String, String)>,
}

impl View for EnvMap {
    type V = Map<Seq<char>, Seq<char>>;

    closed spec fn view(&self) -> Map<Seq<char>, Seq<char>> {
        entries_map(self.entries@)
    }
}

impl EnvMap {
    /// The entries are in strictly increasing key order.
    pub closed spec fn wf(&self) -> bool {
        sorted_keys(self.entries@)
    }

    /// An empty map.
    pub fn new() -> (r: EnvMap)
        ensures
            r.wf(),
            r@ == Map::<Seq<char>, Seq<char>>::empty(),
    {
        let r = EnvMap { entries: Vec::new() };
        assert(r@ =~= Map::<Seq<char>, Seq<char>>::empty());
        r
    }

    /// The position where `key` is or would go.
    fn position(&self, key: &String) -> (r: usize)
        requires
            self.wf(),
        ensures
            r <= self.entries@.len(),
            forall|i: int| 0 <= i < r ==> chars_lt(#[trigger] self.entries@[i].0@, key@),
            r < self.entries@.len() ==> !chars_lt(self.entries@[r as int].0@, key@),
    {
        let mut p: usize = 0;
        while p < self.entries.len() && str_less(self.entries[p].0.as_str(), key.as_str())
            invariant
                p <= self.entries@.len(),
                forall|i: int| 0 <= i < p ==> chars_lt(#[trigger] self.entries@[i].0@, key@),
            decreases self.entries.len() - p,
        {
            p += 1;
        }
        p
    }

    /// The value of `key`.
    pub fn get(&self, key: &String) -> (r: Option<String>)
        requires
            self.wf(),
        ensures
            opt_view(r) == (if self@.contains_key(key@) {
                Some(self@[key@])
            } else {
                None::<Seq<char>>
            }),
    {
        let p = self.position(key);
        if p < self.entries.len() && self.entries[p].0 == *key {
            proof {
                lemma_sorted_lookup(self.entries@, p as int);
            }
            return Some(self.entries[p].1.clone());
        }
        proof {
            if self@.contains_key(key@) {
                let j = choose|j: int| 0 <= j < self.entries@.len() && self.entries@[j].0@ == key@;
                lemma_chars_lt_irreflexive(key@);
                if j > p {
                    lemma_chars_lt_total(self.entries@[p as int].0@, key@);
                }
            }
        }
        None
    }

    /// Whether `key` has a value.
    pub fn contains_key(&self, key: &String) -> (r: bool)
        requires
            self.wf(),
        ensures
            r == self@.contains_key(key@),
    {
        self.get(key).is_some()
    }

    /// Gives `key` the value `value`.
    pub fn insert(&mut self, key: String, value: String)
        requires
            old(self).wf(),
        ensures
            final(self).wf(),
            final(self)@ == old(self)@.insert(key@, value@),
    {
        let p = self.position(&key);
        let ghost old_entries = self.entries@;
        if p < self.entries.len() && self.entries[p].0 == key {
            self.entries.remove(p);
            self.entries.insert(p, (key, value));
            let ghost e = self.entries@;
            assert(e =~= old_entries.update(p as int, (key, value)));
            assert(sorted_keys(e)) by {
                assert forall|i: int, j: int| 0 <= i < j < e.len() implies chars_lt(
                    #[trigger] e[i].0@,
                    #[trigger] e[j].0@,
                ) by {
                    assert(old_entries[i].0@ == e[i].0@);
                    assert(old_entries[j].0@ == e[j].0@);
                }
            }
            assert(self@ =~= old(self)@.insert(key@, value@)) by {
                assert forall|k: Seq<char>| #[trigger] self@.contains_key(k) == old(
                    self,
                )@.insert(key@, value@).contains_key(k) by {
                    if self@.contains_key(k) {
                        let j = choose|j: int| 0 <= j < e.len() && e[j].0@ == k;
                        assert(old_entries[j].0@ == k);
                    }
                    if old(self)@.contains_key(k) {
                        let j = choose|j: int| 0 <= j < old_entries.len() && old_entries[j].0@ == k;
                        assert(e[j].0@ == k);
                    }
                    if k == key@ {
                        assert(e[p as int].0@ == k);
                    }
                }
                assert forall|k: Seq<char>| #[trigger] self@.contains_key(k) implies self@[k] == old(
                    self,
                )@.insert(key@, value@)[k] by {
                    let j = choose|j: int| 0 <= j < e.len() && e[j].0@ == k;
                    lemma_sorted_lookup(e, j);
                    if j != p {
                        lemma_sorted_lookup(old_entries, j);
                    }
                }
            }
        } else {
            self.entries.insert(p, (key, value));
            let ghost e = self.entries@;
            assert(sorted_keys(e)) by {
                assert forall|i: int, j: int| 0 <= i < j < e.len() implies chars_lt(
                    #[trigger] e[i].0@,
                    #[trigger] e[j].0@,
                ) by {
                    if p < old_entries.len() {
                        lemma_chars_lt_total(old_entries[p as int].0@, key@);
                    }
                    if i < p && j == p {
                    } else if i < p && j > p {
                        assert(e[j] == old_entries[j - 1]);
                        assert(chars_lt(old_entries[i].0@, key@));
                        lemma_chars_lt_transitive(old_entries[i].0@, key@, old_entries[p as int].0@);
                        if j - 1 > p {
                            lemma_chars_lt_transitive(
                                old_entries[i].0@,
                                old_entries[p as int].0@,
                                old_entries[j - 1].0@,
                            );
                        }
                    } else if i == p {
                        assert(e[j] == old_entries[j - 1]);
                        if j - 1 > p {
                            lemma_chars_lt_transitive(
                                key@,
                                old_entries[p as int].0@,
                                old_entries[j - 1].0@,
                            );
                        }
                    } else if i > p {
                        assert(e[i] == old_entries[i - 1]);
                        assert(e[j] == old_entries[j - 1]);
                    }
                }
            }
            assert(self@ =~= old(self)@.insert(key@, value@)) by {
                assert forall|k: Seq<char>| #[trigger] self@.contains_key(k) == old(
                    self,
                )@.insert(key@, value@).contains_key(k) by {
                    if self@.contains_key(k) {
                        let j = choose|j: int| 0 <= j < e.len() && e[j].0@ == k;
                        if j < p {
                            assert(old_entries[j].0@ == k);
                        } else if j > p {
                            assert(old_entries[j - 1].0@ == k);
                        }
                    }
                    if old(self)@.contains_key(k) {
                        let j = choose|j: int| 0 <= j < old_entries.len() && old_entries[j].0@ == k;
                        if j < p {
                            assert(e[j].0@ == k);
                        } else {
                            assert(e[j + 1].0@ == k);
                        }
                    }
                    if k == key@ {
                        assert(e[p as int].0@ == k);
                    }
                }
                assert forall|k: Seq<char>| #[trigger] self@.contains_key(k) implies self@[k] == old(
                    self,
                )@.insert(key@, value@)[k] by {
                    let j = choose|j: int| 0 <= j < e.len() && e[j].0@ == k;
                    lemma_sorted_lookup(e, j);
                    if j < p {
                        lemma_sorted_lookup(old_entries, j);
                        lemma_chars_lt_irreflexive(key@);
                    } else if j > p {
                        lemma_sorted_lookup(old_entries, j - 1);
                        assert(chars_lt(e[p as int].0@, e[j].0@));
                        lemma_chars_lt_irreflexive(key@);
                    }
                }
            }
        }
    }

    /// Takes `key` out.
    pub fn remove(&mut self, key: &String)
        requires
            old(self).wf(),
        ensures
            final(self).wf(),
            final(self)@ == old(self)@.remove(key@),
    {
        let p = self.position(key);
        if p < self.entries.len() && self.entries[p].0 == *key {
            let ghost old_entries = self.entries@;
            self.entries.remove(p);
            let ghost e = self.entries@;
            assert(sorted_keys(e)) by {
                assert forall|i: int, j: int| 0 <= i < j < e.len() implies chars_lt(
                    #[trigger] e[i].0@,
                    #[trigger] e[j].0@,
                ) by {
                    if i < p && j >= p {
                        assert(e[j] == old_entries[j + 1]);
                    } else if i >= p {
                        assert(e[i] == old_entries[i + 1]);
                        assert(e[j] == old_entries[j + 1]);
                    }
                }
            }
            assert(self@ =~= old(self)@.remove(key@)) by {
                assert forall|k: Seq<char>| #[trigger] self@.contains_key(k) == old(self)@.remove(
                    key@,
                ).contains_key(k) by {
                    if self@.contains_key(k) {
                        let j = choose|j: int| 0 <= j < e.len() && e[j].0@ == k;
                        if j < p {
                            assert(old_entries[j].0@ == k);
                            assert(chars_lt(k, key@));
                        } else {
                            assert(old_entries[j + 1].0@ == k);
                            assert(chars_lt(key@, k));
                        }
                        lemma_chars_lt_irreflexive(k);
                    }
                    if old(self)@.remove(key@).contains_key(k) {
                        let j = choose|j: int| 0 <= j < old_entries.len() && old_entries[j].0@ == k;
                        if j < p {
                            assert(e[j].0@ == k);
                        } else if j > p {
                            assert(e[j - 1].0@ == k);
                        }
                    }
                }
                assert forall|k: Seq<char>| #[trigger] self@.contains_key(k) implies self@[k] == old(
                    self,
                )@.remove(key@)[k] by {
                    let j = choose|j: int| 0 <= j < e.len() && e[j].0@ == k;
                    lemma_sorted_lookup(e, j);
                    if j < p {
                        lemma_sorted_lookup(old_entries, j);
                    } else {
                        lemma_sorted_lookup(old_entries, j + 1);
                    }
                }
            }
        } else {
            proof {
                if self@.contains_key(key@) {
                    let j = choose|j: int| 0 <= j < self.entries@.len() && self.entries@[j].0@
                        == key@;
                    lemma_chars_lt_irreflexive(key@);
                    if j > p {
                        lemma_chars_lt_total(self.entries@[p as int].0@, key@);
                    }
                }
                assert(self@ =~= old(self)@.remove(key@));
            }
        }
    }

    /// The entries, in increasing key order.
    pub fn into_pairs(self) -> (r: Vec<(String, String)>)
        requires
            self.wf(),
        ensures
            in_key_order(pairs_view(r@), self@),
    {
        let r = self.entries;
        proof {
            let s = pairs_view(r@);
            assert forall|i: int| 0 <= i < s.len() implies self@.contains_key(#[trigger] s[i].0)
                && self@[s[i].0] == s[i].1 by {
                lemma_sorted_lookup(r@, i);
            }
            assert forall|k: Seq<char>| self@.contains_key(k) implies exists|i: int|
                0 <= i < s.len() && #[trigger] s[i].0 == k by {
                let j = choose|j: int| 0 <= j < r@.len() && r@[j].0@ == k;
                assert(s[j].0 == k);
            }
        }
        r
    }
}

} // verus!
