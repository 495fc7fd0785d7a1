//! Durable user facts, preferences, and the recent conversation.
use vstd::prelude::*;

use crate::intent::{Intent, IntentSpec};
use crate::scan::{
    join, join_seq, lemma_lex_irreflexive, lemma_lex_total, lemma_lex_transitive, lex_less, lex_lt,
    trim, trim_seq,
};
use crate::text::{chars_of, eq_str, push_str, string_of};

verus! {

// ───────────────────────── facts ─────────────────────────

/// No key occurs twice.
pub open spec fn keys_unique(s: Seq<(String, String)>) -> bool {
    forall|i: int, j: int| 0 <= i < j < s.len() ==> (#[trigger] s[i]).0@ != (#[trigger] s[j]).0@
}

/// The key-value map a sequence of pairs describes.
pub open spec fn pairs_map(s: Seq<(String, String)>) -> Map<Seq<char>, Seq<char>>
    decreases s.len(),
{
    if s.len() == 0 {
        Map::empty()
    } else {
        pairs_map(s.drop_last()).insert(s.last().0@, s.last().1@)
    }
}

/// The map of a sequence with unique keys holds exactly its pairs.
pub proof fn lemma_pairs_map(s: Seq<(String, String)>, k: Seq<char>)
    requires
        keys_unique(s),
    ensures
        pairs_map(s).dom().contains(k) <==> exists|i: int| 0 <= i < s.len() && (#[trigger] s[i]).0@ == k,
        forall|i: int| 0 <= i < s.len() && (#[trigger] s[i]).0@ == k ==> pairs_map(s)[k] == s[i].1@,
    decreases s.len(),
{
    if s.len() > 0 {
        let t = s.drop_last();
        assert(keys_unique(t)) by {
            assert forall|i: int, j: int| 0 <= i < j < t.len() implies (#[trigger] t[i]).0@ != (
            #[trigger] t[j]).0@ by {
                assert(t[i] == s[i] && t[j] == s[j]);
            }
        }
        lemma_pairs_map(t, k);
        if exists|i: int| 0 <= i < t.len() && (#[trigger] t[i]).0@ == k {
            let i = choose|i: int| 0 <= i < t.len() && (#[trigger] t[i]).0@ == k;
            assert(s[i] == t[i]);
        }
        if exists|i: int| 0 <= i < s.len() && (#[trigger] s[i]).0@ == k {
            let i = choose|i: int| 0 <= i < s.len() && (#[trigger] s[i]).0@ == k;
            if i < s.len() - 1 {
                assert(t[i] == s[i]);
            }
        }
        assert forall|i: int| 0 <= i < s.len() && (#[trigger] s[i]).0@ == k implies pairs_map(s)[k]
            == s[i].1@ by {
            if i < s.len() - 1 {
                assert(t[i] == s[i]);
                assert(s.last().0@ != k);
            }
        }
    }
}

/// Durable user facts: a key-value store in which no key occurs twice.
#[derive(Debug)]
pub struct Facts {
    entries: Vec<(String, String)>,
}

impl View for Facts {
    type V = Map<Seq<char>, Seq<char>>;

    closed spec fn view(&self) -> Map<Seq<char>, Seq<char>> {
        pairs_map(self.entries@)
    }
}

impl Facts {
    #[verifier::type_invariant]
    spec fn wf(self) -> bool {
        keys_unique(self.entries@)
    }

    pub fn new() -> (r: Facts)
        ensures
            r@ == Map::<Seq<char>, Seq<char>>::empty(),
    {
        Facts { entries: Vec::new() }
    }

    /// Index of the entry with key `k`, if any.
    fn position(&self, k: &Vec<char>) -> (r: Option<usize>)
        ensures
            match r {
                Some(i) => i < self.entries@.len() && self.entries@[i as int].0@ == k@,
                None => forall|i: int| 0 <= i < self.entries@.len() ==> (#[trigger] self.entries@[i]).0@ != k@,
            },
    {
        let mut i: usize = 0;
        while i < self.entries.len()
            invariant
                i <= self.entries.len(),
                forall|j: int| 0 <= j < i ==> (#[trigger] self.entries@[j]).0@ != k@,
            decreases self.entries.len() - i,
        {
            if eq_str(k, self.entries[i].0.as_str()) {
                return Some(i);
            }
            i = i + 1;
        }
        None
    }

    /// A copy holding the same facts.
    pub fn copy(&self) -> (r: Facts)
        ensures
            r@ == self@,
    {
        let mut r = Facts::new();
        let mut i: usize = 0;
        while i < self.entries.len()
            invariant
                i <= self.entries@.len(),
                r@ == pairs_map(self.entries@.take(i as int)),
            decreases self.entries@.len() - i,
        {
            let k = self.entries[i].0.clone();
            let v = self.entries[i].1.clone();
            r.insert(k, v);
            proof {
                assert(self.entries@.take(i + 1).drop_last() =~= self.entries@.take(i as int));
            }
            i = i + 1;
        }
        proof {
            assert(self.entries@.take(i as int) =~= self.entries@);
        }
        r
    }

    /// The number of facts.
    pub fn len(&self) -> (r: usize)
        ensures
            r == self@.dom().len(),
    {
        proof {
            use_type_invariant(self);
            lemma_dom_len(self.entries@);
        }
        self.entries.len()
    }

    /// The value stored under `key`.
    pub fn get(&self, key: &str) -> (r: Option<String>)
        ensures
            match r {
                Some(v) => self@.dom().contains(key@) && v@ == self@[key@],
                None => !self@.dom().contains(key@),
            },
    {
        proof {
            use_type_invariant(self);
            lemma_pairs_map(self.entries@, key@);
        }
        let k = chars_of(key);
        match self.position(&k) {
            Some(i) => Some(self.entries[i].1.clone()),
            None => None,
        }
    }

    /// Store `value` under `key`, replacing any earlier value.
    #[verifier::spinoff_prover]
    #[verifier::rlimit(30)]
    pub fn insert(&mut self, key: String, value: String)
        ensures
            final(self)@ == old(self)@.insert(key@, value@),
    {
        proof {
            use_type_invariant(&*self);
        }
        let k = chars_of(key.as_str());
        let ghost old_entries = self.entries@;
        match self.position(&k) {
            Some(i) => {
                let mut entries: Vec<(String, String)> = Vec::new();
                std::mem::swap(&mut entries, &mut self.entries);
                proof {
                    assert(entries@ == old_entries);
                }
                entries.set(i, (key, value));
                let ghost new_entries = entries@;
                proof {
                    assert forall|a: int, b: int| 0 <= a < b < new_entries.len() implies (
                    #[trigger] new_entries[a]).0@ != (#[trigger] new_entries[b]).0@ by {
                        if a != i && b != i {
                            assert(new_entries[a] == old_entries[a]);
                            assert(new_entries[b] == old_entries[b]);
                        } else if a == i {
                            assert(new_entries[b] == old_entries[b]);
                        } else {
                            assert(new_entries[a] == old_entries[a]);
                        }
                    }
                    assert forall|x: Seq<char>| true implies #[trigger] pairs_map(new_entries).dom().contains(x)
                        == pairs_map(old_entries).insert(key@, value@).dom().contains(x) && (
                    pairs_map(new_entries).dom().contains(x) ==> pairs_map(new_entries)[x] == pairs_map(
                        old_entries,
                    ).insert(key@, value@)[x]) by {
                        lemma_pairs_map(new_entries, x);
                        lemma_pairs_map(old_entries, x);
                        assert(new_entries[i as int].0@ == key@);
                        assert(new_entries[i as int].1@ == value@);
                        assert(old_entries[i as int].0@ == key@);
                        if exists|j: int| 0 <= j < new_entries.len() && (#[trigger] new_entries[j]).0@ == x {
                            let j = choose|j: int| 0 <= j < new_entries.len() && (#[trigger] new_entries[j]).0@ == x;
                            if j != i {
                                assert(new_entries[j] == old_entries[j]);
                            }
                        }
                        if exists|j: int| 0 <= j < old_entries.len() && (#[trigger] old_entries[j]).0@ == x {
                            let j = choose|j: int| 0 <= j < old_entries.len() && (#[trigger] old_entries[j]).0@ == x;
                            if j != i {
                                assert(new_entries[j] == old_entries[j]);
                            }
                        }
                    }
                    assert(pairs_map(new_entries) =~= pairs_map(old_entries).insert(key@, value@));
                }
                self.entries = entries;
            },
            None => {
                let mut entries: Vec<(String, String)> = Vec::new();
                std::mem::swap(&mut entries, &mut self.entries);
                proof {
                    assert(entries@ == old_entries);
                }
                entries.push((key, value));
                proof {
                    assert(entries@.drop_last() =~= old_entries);
                    assert forall|a: int, b: int| 0 <= a < b < entries@.len() implies (
                    #[trigger] entries@[a]).0@ != (#[trigger] entries@[b]).0@ by {
                        if b < old_entries.len() {
                            assert(entries@[a] == old_entries[a]);
                            assert(entries@[b] == old_entries[b]);
                        } else {
                            assert(entries@[a] == old_entries[a]);
                        }
                    }
                }
                self.entries = entries;
            },
        }
    }

    /// Delete the value under `key`, returning it.
    #[verifier::spinoff_prover]
    #[verifier::rlimit(30)]
    pub fn remove(&mut self, key: &str) -> (r: Option<String>)
        ensures
            final(self)@ == old(self)@.remove(key@),
            match r {
                Some(v) => old(self)@.dom().contains(key@) && v@ == old(self)@[key@],
                None => !old(self)@.dom().contains(key@),
            },
    {
        proof {
            use_type_invariant(&*self);
            lemma_pairs_map(self.entries@, key@);
        }
        let k = chars_of(key);
        let ghost old_entries = self.entries@;
        match self.position(&k) {
            Some(i) => {
                let mut entries: Vec<(String, String)> = Vec::new();
                std::mem::swap(&mut entries, &mut self.entries);
                proof {
                    assert(entries@ == old_entries);
                }
                let (_, v) = entries.remove(i);
                let ghost new_entries = entries@;
                proof {
                    assert(new_entries =~= old_entries.remove(i as int));
                    assert forall|a: int, b: int| 0 <= a < b < new_entries.len() implies (
                    #[trigger] new_entries[a]).0@ != (#[trigger] new_entries[b]).0@ by {
                        let a0 = if a < i {
                            a
                        } else {
                            a + 1
                        };
                        let b0 = if b < i {
                            b
                        } else {
                            b + 1
                        };
                        assert(new_entries[a] == old_entries[a0]);
                        assert(new_entries[b] == old_entries[b0]);
                    }
                    assert forall|x: Seq<char>| true implies #[trigger] pairs_map(new_entries).dom().contains(x)
                        == pairs_map(old_entries).remove(key@).dom().contains(x) && (
                    pairs_map(new_entries).dom().contains(x) ==> pairs_map(new_entries)[x] == pairs_map(
                        old_entries,
                    ).remove(key@)[x]) by {
                        lemma_pairs_map(new_entries, x);
                        lemma_pairs_map(old_entries, x);
                        if exists|j: int| 0 <= j < new_entries.len() && (#[trigger] new_entries[j]).0@ == x {
                            let j = choose|j: int| 0 <= j < new_entries.len() && (#[trigger] new_entries[j]).0@ == x;
                            let j0 = if j < i {
                                j
                            } else {
                                j + 1
                            };
                            assert(new_entries[j] == old_entries[j0]);
                        }
                        if exists|j: int| 0 <= j < old_entries.len() && (#[trigger] old_entries[j]).0@ == x {
                            let j = choose|j: int| 0 <= j < old_entries.len() && (#[trigger] old_entries[j]).0@ == x;
                            if j < i {
                                assert(new_entries[j] == old_entries[j]);
                            } else if j > i {
                                assert(new_entries[j - 1] == old_entries[j]);
                            }
                        }
                    }
                    assert(pairs_map(new_entries) =~= pairs_map(old_entries).remove(key@));
                }
                self.entries = entries;
                Some(v)
            },
            None => {
                proof {
                    assert(pairs_map(old_entries).remove(key@) =~= pairs_map(old_entries));
                }
                None
            },
        }
    }

    /// The facts in increasing key order.
    #[verifier::spinoff_prover]
    #[verifier::rlimit(40)]
    pub fn sorted(&self) -> (r: Vec<(String, String)>)
        ensures
            keys_unique(r@),
            pairs_map(r@) == self@,
            forall|i: int, j: int| 0 <= i < j < r@.len() ==> lex_lt((#[trigger] r@[i]).0@, (#[trigger] r@[j]).0@),
    {
        proof {
            use_type_invariant(self);
        }
        let mut out: Vec<(String, String)> = Vec::new();
        let mut n: usize = 0;
        while n < self.entries.len()
            invariant
                n <= self.entries.len(),
                keys_unique(self.entries@),
                keys_unique(out@),
                forall|i: int, j: int| 0 <= i < j < out@.len() ==> lex_lt((#[trigger] out@[i]).0@, (#[trigger] out@[j]).0@),
                pairs_map(out@) == pairs_map(self.entries@.take(n as int)),
                forall|i: int| 0 <= i < out@.len() ==> exists|j: int| 0 <= j < n && (#[trigger] out@[i]).0@ == (#[trigger] self.entries@[j]).0@,
            decreases self.entries.len() - n,
        {
            let e = (self.entries[n].0.clone(), self.entries[n].1.clone());
            let ek = chars_of(e.0.as_str());
            let mut p: usize = 0;
            while p < out.len() && !lex_less(&ek, &chars_of(out[p].0.as_str()))
                invariant
                    p <= out.len(),
                    forall|i: int| 0 <= i < p ==> !lex_lt(ek@, (#[trigger] out@[i]).0@),
                decreases out.len() - p,
            {
                p = p + 1;
            }
            let ghost before = out@;
            proof {
                // the new key differs from every key already placed
                assert forall|i: int| 0 <= i < before.len() implies (#[trigger] before[i]).0@ != ek@ by {
                    let j = choose|j: int| 0 <= j < n && before[i].0@ == (#[trigger] self.entries@[j]).0@;
                    assert(self.entries@[j].0@ != self.entries@[n as int].0@);
                }
                assert forall|i: int| 0 <= i < p implies lex_lt((#[trigger] before[i]).0@, ek@) by {
                    lemma_lex_total(before[i].0@, ek@);
                }
                assert forall|i: int| p <= i < before.len() implies lex_lt(ek@, (#[trigger] before[i]).0@) by {
                    if i > p {
                        lemma_lex_transitive(ek@, before[p as int].0@, before[i].0@);
                    }
                }
            }
            out.insert(p, e);
            proof {
                let after = out@;
                assert(after =~= before.insert(p as int, e));
                assert forall|i: int, j: int| 0 <= i < j < after.len() implies lex_lt((#[trigger] after[i]).0@, (#[trigger] after[j]).0@) by {
                    if j < p {
                    } else if j == p {
                    } else if i < p {
                        assert(after[j] == before[j - 1]);
                        lemma_lex_transitive(before[i].0@, ek@, before[j - 1].0@);
                    } else if i == p {
                        assert(after[j] == before[j - 1]);
                    } else {
                        assert(after[i] == before[i - 1] && after[j] == before[j - 1]);
                    }
                }
                assert forall|i: int, j: int| 0 <= i < j < after.len() implies (#[trigger] after[i]).0@ != (#[trigger] after[j]).0@ by {
                    lemma_lex_irreflexive(after[i].0@);
                }
                let tk = self.entries@.take(n + 1);
                assert(tk.drop_last() =~= self.entries@.take(n as int));
                assert(keys_unique(tk)) by {
                    assert forall|a: int, b: int| 0 <= a < b < tk.len() implies (#[trigger] tk[a]).0@ != (#[trigger] tk[b]).0@ by {
                        assert(tk[a] == self.entries@[a] && tk[b] == self.entries@[b]);
                    }
                }
                assert forall|x: Seq<char>| true implies #[trigger] pairs_map(after).dom().contains(x)
                    == pairs_map(before).insert(ek@, e.1@).dom().contains(x) && (pairs_map(after).dom().contains(x)
                    ==> pairs_map(after)[x] == pairs_map(before).insert(ek@, e.1@)[x]) by {
                    lemma_pairs_map(after, x);
                    lemma_pairs_map(before, x);
                    assert(after[p as int] == e);
                    if exists|j: int| 0 <= j < after.len() && (#[trigger] after[j]).0@ == x {
                        let j = choose|j: int| 0 <= j < after.len() && (#[trigger] after[j]).0@ == x;
                        if j < p {
                            assert(after[j] == before[j]);
                        } else if j > p {
                            assert(after[j] == before[j - 1]);
                        }
                    }
                    if exists|j: int| 0 <= j < before.len() && (#[trigger] before[j]).0@ == x {
                        let j = choose|j: int| 0 <= j < before.len() && (#[trigger] before[j]).0@ == x;
                        if j < p {
                            assert(after[j] == before[j]);
                        } else {
                            assert(after[j + 1] == before[j]);
                        }
                    }
                }
                assert(pairs_map(after) =~= pairs_map(before).insert(ek@, e.1@));
                assert(tk.last() == self.entries@[n as int]);
                assert forall|i: int| 0 <= i < after.len() implies exists|j: int| 0 <= j < n + 1 && (#[trigger] after[i]).0@ == (#[trigger] self.entries@[j]).0@ by {
                    if i < p {
                        assert(after[i] == before[i]);
                    } else if i > p {
                        assert(after[i] == before[i - 1]);
                    } else {
                        assert(after[i].0@ == self.entries@[n as int].0@);
                    }
                }
            }
            n = n + 1;
        }
        proof {
            assert(self.entries@.take(n as int) =~= self.entries@);
        }
        out
    }
}

/// The map of a unique-key sequence has as many keys as the sequence has entries.
proof fn lemma_dom_len(s: Seq<(String, String)>)
    requires
        keys_unique(s),
    ensures
        pairs_map(s).dom().len() == s.len(),
        pairs_map(s).dom().finite(),
    decreases s.len(),
{
    if s.len() > 0 {
        let t = s.drop_last();
        assert(keys_unique(t)) by {
            assert forall|i: int, j: int| 0 <= i < j < t.len() implies (#[trigger] t[i]).0@ != (#[trigger] t[j]).0@ by {
                assert(t[i] == s[i] && t[j] == s[j]);
            }
        }
        lemma_dom_len(t);
        lemma_pairs_map(t, s.last().0@);
        if pairs_map(t).dom().contains(s.last().0@) {
            let i = choose|i: int| 0 <= i < t.len() && (#[trigger] t[i]).0@ == s.last().0@;
            assert(s[i] == t[i]);
        }
    }
}

// ───────────────────────── the memory laws ─────────────────────────

/// A remembered fact is recalled as written, and other facts are untouched.
pub proof fn law_recall_after_remember(m: Map<Seq<char>, Seq<char>>, k: Seq<char>, v: Seq<char>, other: Seq<char>)
    requires
        other != k,
    ensures
        m.insert(k, v).dom().contains(k),
        m.insert(k, v)[k] == v,
        m.insert(k, v).dom().contains(other) == m.dom().contains(other),
        m.dom().contains(other) ==> m.insert(k, v)[other] == m[other],
{
}

/// A forgotten fact is no longer recalled, and other facts are untouched.
pub proof fn law_forget_removes(m: Map<Seq<char>, Seq<char>>, k: Seq<char>, other: Seq<char>)
    requires
        other != k,
    ensures
        !m.remove(k).dom().contains(k),
        m.remove(k).dom().contains(other) == m.dom().contains(other),
        m.dom().contains(other) ==> m.remove(k)[other] == m[other],
{
}


// ───────────────────────── preferences ─────────────────────────

/// `key: value` listing lines of sorted facts.
pub open spec fn fact_lines(s: Seq<(String, String)>) -> Seq<Seq<char>> {
    s.map_values(|p: (String, String)| "- "@ + p.0@ + ": "@ + p.1@)
}

/// `s` lists the facts of `m` in increasing key order.
pub open spec fn sorted_listing(s: Seq<(String, String)>, m: Map<Seq<char>, Seq<char>>) -> bool {
    &&& keys_unique(s)
    &&& pairs_map(s) == m
    &&& forall|i: int, j: int| 0 <= i < j < s.len() ==> lex_lt((#[trigger] s[i]).0@, (#[trigger] s[j]).0@)
}

/// The last key of a sorted listing is the greatest key of its map.
proof fn lemma_listing_last_is_max(s: Seq<(String, String)>, m: Map<Seq<char>, Seq<char>>, k: Seq<char>)
    requires
        sorted_listing(s, m),
        s.len() > 0,
        m.dom().contains(k),
    ensures
        k == s.last().0@ || lex_lt(k, s.last().0@),
        m.dom().contains(s.last().0@),
        m[s.last().0@] == s.last().1@,
{
    lemma_pairs_map(s, k);
    lemma_pairs_map(s, s.last().0@);
    let i = choose|i: int| 0 <= i < s.len() && (#[trigger] s[i]).0@ == k;
    if i < s.len() - 1 {
        assert(lex_lt(s[i].0@, s[s.len() - 1].0@));
    }
    assert(s[s.len() - 1] == s.last());
}

/// Dropping the last pair of a sorted listing lists the map without its key.
proof fn lemma_listing_drop_last(s: Seq<(String, String)>, m: Map<Seq<char>, Seq<char>>)
    requires
        sorted_listing(s, m),
        s.len() > 0,
    ensures
        sorted_listing(s.drop_last(), m.remove(s.last().0@)),
{
    let t = s.drop_last();
    let k = s.last().0@;
    assert(keys_unique(t)) by {
        assert forall|i: int, j: int| 0 <= i < j < t.len() implies (#[trigger] t[i]).0@ != (
        #[trigger] t[j]).0@ by {
            assert(t[i] == s[i] && t[j] == s[j]);
        }
    }
    assert(forall|i: int, j: int| 0 <= i < j < t.len() ==> lex_lt((#[trigger] t[i]).0@, (#[trigger] t[j]).0@)) by {
        assert forall|i: int, j: int| 0 <= i < j < t.len() implies lex_lt((#[trigger] t[i]).0@, (#[trigger] t[j]).0@) by {
            assert(t[i] == s[i] && t[j] == s[j]);
        }
    }
    lemma_pairs_map(t, k);
    if pairs_map(t).dom().contains(k) {
        let i = choose|i: int| 0 <= i < t.len() && (#[trigger] t[i]).0@ == k;
        assert(t[i] == s[i]);
        assert(s[s.len() - 1] == s.last());
    }
    assert(pairs_map(t) =~= m.remove(k));
}

/// A map has one sorted listing: two listings of the same facts in increasing
/// key order hold the same keys and values at every position, so they render
/// the same fact lines (and `memory_block` renders one text).
pub proof fn law_sorted_listing_unique(
    s1: Seq<(String, String)>,
    s2: Seq<(String, String)>,
    m: Map<Seq<char>, Seq<char>>,
)
    requires
        sorted_listing(s1, m),
        sorted_listing(s2, m),
    ensures
        s1.len() == s2.len(),
        forall|i: int| 0 <= i < s1.len() ==> (#[trigger] s1[i]).0@ == s2[i].0@ && s1[i].1@ == s2[i].1@,
        fact_lines(s1) == fact_lines(s2),
    decreases s1.len(),
{
    if s1.len() == 0 {
        if s2.len() > 0 {
            lemma_pairs_map(s2, s2[0].0@);
            assert(pairs_map(s1) =~= Map::<Seq<char>, Seq<char>>::empty());
        }
    } else if s2.len() == 0 {
        lemma_pairs_map(s1, s1[0].0@);
        assert(pairs_map(s2) =~= Map::<Seq<char>, Seq<char>>::empty());
    } else {
        let k1 = s1.last().0@;
        let k2 = s2.last().0@;
        lemma_listing_last_is_max(s1, m, k1);
        lemma_listing_last_is_max(s2, m, k2);
        lemma_listing_last_is_max(s1, m, k2);
        lemma_listing_last_is_max(s2, m, k1);
        if k1 != k2 {
            lemma_lex_total(k1, k2);
        }
        assert(k1 == k2);
        lemma_listing_drop_last(s1, m);
        lemma_listing_drop_last(s2, m);
        law_sorted_listing_unique(s1.drop_last(), s2.drop_last(), m.remove(k1));
        assert forall|i: int| 0 <= i < s1.len() implies (#[trigger] s1[i]).0@ == s2[i].0@ && s1[i].1@
            == s2[i].1@ by {
            if i < s1.len() - 1 {
                assert(s1.drop_last()[i] == s1[i]);
                assert(s2.drop_last()[i] == s2[i]);
            } else {
                assert(s1[i] == s1.last());
                assert(s2[i] == s2.last());
            }
        }
    }
    assert(fact_lines(s1) =~= fact_lines(s2));
}

/// The memory block for a user name and a sorted fact listing.
pub open spec fn block_text(user_name: Option<Seq<char>>, s: Seq<(String, String)>) -> Seq<char> {
    let head: Seq<Seq<char>> = match user_name {
        Some(n) => seq!["The user's name is "@ + n + "."@],
        None => seq![],
    };
    let lines = head + fact_lines(s);
    if lines.len() == 0 {
        seq![]
    } else {
        "Known about the user:\n"@ + join_seq(lines, "\n"@)
    }
}

fn fact_line_texts(s: &Vec<(String, String)>) -> (r: Vec<Vec<char>>)
    ensures
        crate::gate::views(r@) == fact_lines(s@),
{
    let mut out: Vec<Vec<char>> = Vec::new();
    let mut i: usize = 0;
    while i < s.len()
        invariant
            i <= s.len(),
            crate::gate::views(out@) == fact_lines(s@.take(i as int)),
        decreases s.len() - i,
    {
        let mut l = chars_of("- ");
        push_str(&mut l, s[i].0.as_str());
        push_str(&mut l, ": ");
        push_str(&mut l, s[i].1.as_str());
        proof {
            assert(fact_lines(s@.take(i + 1)) =~= fact_lines(s@.take(i as int)).push(l@));
            assert(crate::gate::views(out@.push(l)) =~= crate::gate::views(out@).push(l@));
        }
        out.push(l);
        i = i + 1;
    }
    proof {
        assert(s@.take(i as int) =~= s@);
    }
    out
}

/// User preferences and the durable facts learned about the user.
#[derive(Debug)]
pub struct Preferences {
    pub user_name: Option<String>,
    pub voice: Option<String>,
    pub language: String,
    pub wake_word: String,
    pub proactive_enabled: bool,
    pub facts: Facts,
}

impl Default for Preferences {
    fn default() -> (r: Self)
        ensures
            r.user_name is None,
            r.voice matches Some(v) && v@ == "en_US-lessac-medium"@,
            r.language@ == "en"@,
            r.wake_word@ == "hey lai"@,
            r.proactive_enabled,
            r.facts@ == Map::<Seq<char>, Seq<char>>::empty(),
    {
        Preferences {
            user_name: None,
            voice: Some(string_of(&chars_of("en_US-lessac-medium"))),
            language: string_of(&chars_of("en")),
            wake_word: string_of(&chars_of("hey lai")),
            proactive_enabled: true,
            facts: Facts::new(),
        }
    }
}

impl Preferences {
    /// The block of remembered facts injected into the model's context: the
    /// user's name, then every fact as `- key: value` in increasing key order.
    pub fn memory_block(&self) -> (r: String)
        ensures
            exists|s: Seq<(String, String)>| sorted_listing(s, self.facts@) && r@ == block_text(
                match self.user_name {
                    Some(n) => Some(n@),
                    None => None,
                },
                s,
            ),
    {
        let sorted = self.facts.sorted();
        let mut lines: Vec<Vec<char>> = Vec::new();
        match &self.user_name {
            Some(n) => {
                let mut l = chars_of("The user's name is ");
                push_str(&mut l, n.as_str());
                push_str(&mut l, ".");
                lines.push(l);
            },
            None => {},
        }
        let ghost head = crate::gate::views(lines@);
        let fl = fact_line_texts(&sorted);
        let mut i: usize = 0;
        while i < fl.len()
            invariant
                i <= fl.len(),
                crate::gate::views(lines@) == head + crate::gate::views(fl@).take(i as int),
            decreases fl.len() - i,
        {
            let c = crate::text::slice_chars(&fl[i], 0, fl[i].len());
            proof {
                assert(c@ =~= fl@[i as int]@);
                assert(crate::gate::views(fl@)[i as int] == fl@[i as int]@);
                assert(crate::gate::views(fl@).take(i + 1) =~= crate::gate::views(fl@).take(i as int).push(c@));
                assert(crate::gate::views(lines@.push(c)) =~= crate::gate::views(lines@).push(c@));
            }
            lines.push(c);
            i = i + 1;
        }
        proof {
            assert(crate::gate::views(fl@).take(i as int) =~= crate::gate::views(fl@));
            assert(head =~= match self.user_name {
                Some(n) => seq!["The user's name is "@ + n@ + "."@],
                None => Seq::<Seq<char>>::empty(),
            });
            assert(crate::gate::views(lines@) == lines@.map_values(|w: Vec<char>| w@));
        }
        proof {
            assert(sorted_listing(sorted@, self.facts@));
        }
        if lines.len() == 0 {
            return string_of(&Vec::new());
        }
        let mut out = chars_of("Known about the user:\n");
        let body = join(&lines, "\n");
        crate::text::push_chars(&mut out, &body);
        string_of(&out)
    }
}

// ───────────────────────── memory tools ─────────────────────────

/// The trimmed key and value to remember, or the message refusing them.
pub fn remember_input(key: &str, value: &str) -> (r: Result<(String, String), String>)
    ensures
        ({
            let k = trim_seq(key@);
            let v = trim_seq(value@);
            if k.len() == 0 || v.len() == 0 {
                r matches Err(m) && m@ == "remember needs a non-empty key and value"@
            } else {
                r matches Ok((a, b)) && a@ == k && b@ == v
            }
        }),
{
    let k = trim(&chars_of(key));
    let v = trim(&chars_of(value));
    if k.len() == 0 || v.len() == 0 {
        return Err(string_of(&chars_of("remember needs a non-empty key and value")));
    }
    Ok((string_of(&k), string_of(&v)))
}

/// Store a validated fact; the reply once it is saved.
pub fn apply_remember(facts: &mut Facts, key: String, value: String) -> (r: String)
    ensures
        final(facts)@ == old(facts)@.insert(key@, value@),
        r@ == "Remembered: "@ + key@ + " = "@ + value@,
{
    let mut m = chars_of("Remembered: ");
    push_str(&mut m, key.as_str());
    push_str(&mut m, " = ");
    push_str(&mut m, value.as_str());
    facts.insert(key, value);
    string_of(&m)
}

/// The reply to a recall: one fact by trimmed key, or every fact sorted by
/// key when the key is empty.
pub fn recall_text(facts: &Facts, key: &str) -> (r: String)
    ensures
        ({
            let k = trim_seq(key@);
            if k.len() == 0 {
                if facts@.dom().len() == 0 {
                    r@ == "No facts remembered yet."@
                } else {
                    exists|s: Seq<(String, String)>| sorted_listing(s, facts@) && r@ == join_seq(fact_lines(s), "\n"@)
                }
            } else if facts@.dom().contains(k) {
                r@ == k + ": "@ + facts@[k]
            } else {
                r@ == "Nothing remembered for '"@ + k + "'."@
            }
        }),
{
    let k = trim(&chars_of(key));
    let ks = string_of(&k);
    if k.len() == 0 {
        if facts.len() == 0 {
            return string_of(&chars_of("No facts remembered yet."));
        }
        let sorted = facts.sorted();
        let lines = fact_line_texts(&sorted);
        proof {
            assert(crate::gate::views(lines@) == lines@.map_values(|w: Vec<char>| w@));
        }
        let body = join(&lines, "\n");
        proof {
            assert(sorted_listing(sorted@, facts@));
        }
        return string_of(&body);
    }
    match facts.get(ks.as_str()) {
        Some(v) => {
            let mut m = k;
            push_str(&mut m, ": ");
            push_str(&mut m, v.as_str());
            string_of(&m)
        },
        None => {
            let mut m = chars_of("Nothing remembered for '");
            crate::text::push_chars(&mut m, &k);
            push_str(&mut m, "'.");
            string_of(&m)
        },
    }
}

/// The trimmed key to forget, or the message refusing it.
pub fn forget_input(key: &str) -> (r: Result<String, String>)
    ensures
        trim_seq(key@).len() == 0 ==> (r matches Err(m) && m@ == "forget needs a key"@),
        trim_seq(key@).len() > 0 ==> (r matches Ok(k) && k@ == trim_seq(key@)),
{
    let k = trim(&chars_of(key));
    if k.len() == 0 {
        return Err(string_of(&chars_of("forget needs a key")));
    }
    Ok(string_of(&k))
}

/// Forget a validated key: `Ok` with the reply when a fact was removed (to be
/// saved), `Err` with the reply when nothing was stored under it.
pub fn apply_forget(facts: &mut Facts, key: &str) -> (r: Result<String, String>)
    ensures
        final(facts)@ == old(facts)@.remove(key@),
        old(facts)@.dom().contains(key@) ==> (r matches Ok(m) && m@ == "Forgot: "@ + key@),
        !old(facts)@.dom().contains(key@) ==> (r matches Err(m) && m@ == "Nothing remembered for '"@
            + key@ + "'."@),
{
    match facts.remove(key) {
        Some(_) => {
            let mut m = chars_of("Forgot: ");
            push_str(&mut m, key);
            Ok(string_of(&m))
        },
        None => {
            let mut m = chars_of("Nothing remembered for '");
            push_str(&mut m, key);
            push_str(&mut m, "'.");
            Err(string_of(&m))
        },
    }
}

// ───────────────────────── conversation ─────────────────────────

/// Most exchanges kept in the history.
pub const MAX_HISTORY: usize = 100;

/// A single exchange: user input, its intent, and the response.
#[derive(Debug)]
pub struct Exchange {
    pub user_input: String,
    pub intent: Intent,
    pub response: String,
}

impl Clone for Exchange {
    fn clone(&self) -> (r: Self)
        ensures
            r.user_input == self.user_input,
            r.intent@ == self.intent@,
            r.response == self.response,
    {
        Exchange {
            user_input: self.user_input.clone(),
            intent: self.intent.clone(),
            response: self.response.clone(),
        }
    }
}

/// What exchanges hold: user input, intent and response.
pub open spec fn exchange_views(s: Seq<Exchange>) -> Seq<(Seq<char>, IntentSpec, Seq<char>)> {
    s.map_values(|e: Exchange| (e.user_input@, e.intent@, e.response@))
}

/// The last `MAX_HISTORY` exchanges, oldest first.
#[derive(Debug)]
pub struct ConversationHistory {
    exchanges: Vec<Exchange>,
}

impl Default for ConversationHistory {
    fn default() -> (r: Self)
        ensures
            r.count() == 0,
    {
        ConversationHistory::new()
    }
}

impl ConversationHistory {
    /// At most `MAX_HISTORY` exchanges are kept.
    #[verifier::type_invariant]
    spec fn bounded(self) -> bool {
        self.exchanges@.len() <= MAX_HISTORY
    }

    /// The kept exchanges (input, intent, response), oldest first.
    pub closed spec fn spec_exchanges(&self) -> Seq<(Seq<char>, IntentSpec, Seq<char>)> {
        exchange_views(self.exchanges@)
    }

    pub closed spec fn count(&self) -> nat {
        self.exchanges@.len()
    }

    pub fn new() -> (r: Self)
        ensures
            r.count() == 0,
    {
        ConversationHistory { exchanges: Vec::new() }
    }

    /// Append an exchange, keeping only the last `MAX_HISTORY`.
    pub fn push(&mut self, exchange: Exchange)
        ensures
            ({
                let all = old(self).spec_exchanges().push((exchange.user_input@, exchange.intent@, exchange.response@));
                final(self).spec_exchanges() == if all.len() > MAX_HISTORY {
                    all.skip(all.len() - MAX_HISTORY)
                } else {
                    all
                }
            }),
            final(self).count() <= MAX_HISTORY,
    {
        proof {
            use_type_invariant(&*self);
        }
        let ghost all = self.exchanges@.push(exchange);
        let mut list: Vec<Exchange> = Vec::new();
        std::mem::swap(&mut list, &mut self.exchanges);
        list.push(exchange);
        if list.len() <= MAX_HISTORY {
            self.exchanges = list;
        } else {
            let total = list.len();
            let drop = list.len() - MAX_HISTORY;
            let mut kept: Vec<Exchange> = Vec::new();
            let mut old_list: Vec<Exchange> = list;
            let mut i: usize = 0;
            let ghost src = old_list@;
            while old_list.len() > 0
                invariant
                    src == all,
                    src.len() == total,
                    total == drop + MAX_HISTORY,
                    i + old_list@.len() == src.len(),
                    old_list@ == src.skip(i as int),
                    i <= drop ==> kept@.len() == 0,
                    i > drop ==> kept@ == src.subrange(drop as int, i as int),
                decreases old_list.len(),
            {
                let e = old_list.remove(0);
                proof {
                    assert(e == src[i as int]);
                    assert(old_list@ =~= src.skip(i + 1));
                }
                if i >= drop {
                    proof {
                        if i == drop {
                            assert(kept@.push(e) =~= src.subrange(drop as int, i + 1));
                        } else {
                            assert(kept@.push(e) =~= src.subrange(drop as int, i + 1));
                        }
                    }
                    kept.push(e);
                }
                i = i + 1;
            }
            proof {
                assert(kept@ =~= all.skip(all.len() - MAX_HISTORY));
            }
            self.exchanges = kept;
        }
        proof {
            assert(exchange_views(all) =~= exchange_views(old(self).exchanges@).push((exchange.user_input@, exchange.intent@, exchange.response@)));
            if all.len() > MAX_HISTORY {
                assert(exchange_views(all.skip(all.len() - MAX_HISTORY)) =~= exchange_views(all).skip(all.len() - MAX_HISTORY));
            }
        }
    }

    /// Copies of the last `n` exchanges, oldest first.
    pub fn recent(&self, n: usize) -> (r: Vec<Exchange>)
        ensures
            exchange_views(r@) == self.spec_exchanges().skip(
                if n >= self.count() {
                    0
                } else {
                    self.count() - n
                },
            ),
    {
        let start = if n >= self.exchanges.len() {
            0
        } else {
            self.exchanges.len() - n
        };
        let mut out: Vec<Exchange> = Vec::new();
        let mut i: usize = start;
        while i < self.exchanges.len()
            invariant
                start <= i <= self.exchanges.len(),
                exchange_views(out@) == exchange_views(self.exchanges@.subrange(start as int, i as int)),
            decreases self.exchanges.len() - i,
        {
            let e = self.exchanges[i].clone();
            proof {
                let x = self.exchanges@[i as int];
                assert(self.exchanges@.subrange(start as int, i + 1) =~= self.exchanges@.subrange(start as int, i as int).push(x));
                assert(exchange_views(self.exchanges@.subrange(start as int, i as int).push(x)) =~= exchange_views(self.exchanges@.subrange(start as int, i as int)).push((x.user_input@, x.intent@, x.response@)));
                assert(exchange_views(out@.push(e)) =~= exchange_views(out@).push((e.user_input@, e.intent@, e.response@)));
            }
            out.push(e);
            i = i + 1;
        }
        proof {
            assert(self.exchanges@.subrange(start as int, i as int) =~= self.exchanges@.skip(start as int));
            assert(exchange_views(self.exchanges@.skip(start as int)) =~= exchange_views(self.exchanges@).skip(start as int));
        }
        out
    }
}

/// The recent exchanges and the user's name, for context injection.
#[derive(Debug)]
pub struct ConversationContext {
    pub recent_exchanges: Vec<Exchange>,
    pub user_name: Option<String>,
    pub voice: Option<String>,
}

/// A response as quoted in the summary: its first 120 characters and `…`
/// when it is longer than 120 bytes.
pub open spec fn quoted(resp: Seq<char>) -> Seq<char> {
    if crate::text::utf8_len(resp) > 120 {
        (if resp.len() > 120 {
            resp.take(120)
        } else {
            resp
        }) + "…"@
    } else {
        resp
    }
}

/// `User:` and `Lai:` lines for each exchange.
pub open spec fn exchange_lines(t: Seq<(Seq<char>, IntentSpec, Seq<char>)>) -> Seq<Seq<char>>
    decreases t.len(),
{
    if t.len() == 0 {
        seq![]
    } else {
        exchange_lines(t.drop_last()) + seq!["User: "@ + t.last().0, "Lai: "@ + quoted(t.last().2)]
    }
}

impl ConversationContext {
    /// A short text of the recent conversation: the user's name first when
    /// known, then each exchange; empty without exchanges.
    pub fn recent_summary(&self) -> (r: String)
        ensures
            ({
                let t = exchange_views(self.recent_exchanges@);
                if t.len() == 0 {
                    r@ == Seq::<char>::empty()
                } else {
                    r@ == join_seq(
                        match self.user_name {
                            Some(n) => seq!["The user's name is "@ + n@ + "."@] + exchange_lines(t),
                            None => exchange_lines(t),
                        },
                        "\n"@,
                    )
                }
            }),
    {
        if self.recent_exchanges.len() == 0 {
            return string_of(&Vec::new());
        }
        let ghost t = exchange_views(self.recent_exchanges@);
        let mut lines: Vec<Vec<char>> = Vec::new();
        match &self.user_name {
            Some(n) => {
                let mut l = chars_of("The user's name is ");
                push_str(&mut l, n.as_str());
                push_str(&mut l, ".");
                lines.push(l);
            },
            None => {},
        }
        let ghost head = crate::gate::views(lines@);
        let mut i: usize = 0;
        while i < self.recent_exchanges.len()
            invariant
                i <= self.recent_exchanges.len(),
                t == exchange_views(self.recent_exchanges@),
                crate::gate::views(lines@) == head + exchange_lines(t.take(i as int)),
            decreases self.recent_exchanges.len() - i,
        {
            let ex = &self.recent_exchanges[i];
            let mut u = chars_of("User: ");
            push_str(&mut u, ex.user_input.as_str());
            let resp = chars_of(ex.response.as_str());
            let mut q: Vec<char> = if crate::text::utf8_len_at_least(&resp, 121) {
                let n: usize = if resp.len() > 120 {
                    120
                } else {
                    resp.len()
                };
                let mut w = crate::text::slice_chars(&resp, 0, n);
                push_str(&mut w, "…");
                proof {
                    assert(resp@.subrange(0, n as int) =~= (if resp@.len() > 120 {
                        resp@.take(120)
                    } else {
                        resp@
                    }));
                }
                w
            } else {
                resp
            };
            let mut l = chars_of("Lai: ");
            crate::text::push_chars(&mut l, &q);
            proof {
                assert(t.take(i + 1).drop_last() =~= t.take(i as int));
                assert(t.take(i + 1).last() == (ex.user_input@, ex.intent@, ex.response@));
                assert(crate::gate::views(lines@.push(u).push(l)) =~= crate::gate::views(lines@).push(u@).push(l@));
            }
            lines.push(u);
            lines.push(l);
            i = i + 1;
        }
        proof {
            assert(t.take(i as int) =~= t);
            assert(crate::gate::views(lines@) == lines@.map_values(|w: Vec<char>| w@));
            assert(head =~= match self.user_name {
                Some(n) => seq!["The user's name is "@ + n@ + "."@],
                None => Seq::<Seq<char>>::empty(),
            });
        }
        let body = join(&lines, "\n");
        string_of(&body)
    }
}

} // verus!
