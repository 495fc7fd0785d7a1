//! The durable schedule store's entries and the list operations behind
//! adding, removing and restoring them. The store is kept sorted by fire
//! time, then id.
use vstd::prelude::*;

use crate::scan::{lemma_lex_irreflexive, lemma_lex_total, lemma_lex_transitive, lex_less, lex_lt};
use crate::text::{chars_of, eq_str};

verus! {

/// File name of the store inside the data directory.
pub const STORE_FILE: &'static str = "schedule.json";

/// What kind of entry this is; drives how a restored entry is re-armed.
#[derive(Debug, Clone, Copy, PartialEq, Eq, Structural)]
pub enum Kind {
    Timer,
    Reminder,
}

/// One persisted pending fire.
#[derive(Debug, PartialEq, Eq)]
pub struct Entry {
    pub kind: Kind,
    /// Stable identifier (timer label, or reminder text).
    pub id: String,
    /// Absolute fire time, Unix seconds.
    pub fire_at: u64,
    /// Text carried to the fire.
    pub text: String,
}

/// `a` sorts strictly before `b`: earlier fire time, then smaller id.
pub open spec fn key_lt(a: Entry, b: Entry) -> bool {
    a.fire_at < b.fire_at || (a.fire_at == b.fire_at && lex_lt(a.id@, b.id@))
}

/// Where a stable insertion puts `x`: after every entry not sorting after it.
pub open spec fn insert_pos(s: Seq<Entry>, x: Entry) -> nat
    decreases s.len(),
{
    if s.len() == 0 || key_lt(x, s[0]) {
        0
    } else {
        1 + insert_pos(s.drop_first(), x)
    }
}

pub open spec fn insert_sorted(s: Seq<Entry>, x: Entry) -> Seq<Entry> {
    s.insert(insert_pos(s, x) as int, x)
}

/// The stable sort of `s` by fire time, then id.
pub open spec fn stable_sort(s: Seq<Entry>) -> Seq<Entry>
    decreases s.len(),
{
    if s.len() == 0 {
        seq![]
    } else {
        insert_sorted(stable_sort(s.drop_last()), s.last())
    }
}

/// No entry sorts before an earlier one.
pub open spec fn sorted(s: Seq<Entry>) -> bool {
    forall|i: int, j: int| 0 <= i < j < s.len() ==> !key_lt(#[trigger] s[j], #[trigger] s[i])
}

/// `s` without the entries of this kind and id, order kept.
pub open spec fn without(s: Seq<Entry>, kind: Kind, id: Seq<char>) -> Seq<Entry>
    decreases s.len(),
{
    if s.len() == 0 {
        seq![]
    } else if s.last().kind == kind && s.last().id@ == id {
        without(s.drop_last(), kind, id)
    } else {
        without(s.drop_last(), kind, id).push(s.last())
    }
}

/// The entries due after `now`, order kept.
pub open spec fn due_after(s: Seq<Entry>, now: u64) -> Seq<Entry>
    decreases s.len(),
{
    if s.len() == 0 {
        seq![]
    } else if s.last().fire_at > now {
        due_after(s.drop_last(), now).push(s.last())
    } else {
        due_after(s.drop_last(), now)
    }
}

/// The entries due at or before `now`, order kept.
pub open spec fn due_by(s: Seq<Entry>, now: u64) -> Seq<Entry>
    decreases s.len(),
{
    if s.len() == 0 {
        seq![]
    } else if s.last().fire_at > now {
        due_by(s.drop_last(), now)
    } else {
        due_by(s.drop_last(), now).push(s.last())
    }
}

proof fn lemma_insert_pos(s: Seq<Entry>, x: Entry)
    ensures
        insert_pos(s, x) <= s.len(),
        forall|i: int| 0 <= i < insert_pos(s, x) ==> !key_lt(x, #[trigger] s[i]),
        insert_pos(s, x) < s.len() ==> key_lt(x, s[insert_pos(s, x) as int]),
    decreases s.len(),
{
    if s.len() > 0 && !key_lt(x, s[0]) {
        lemma_insert_pos(s.drop_first(), x);
        assert forall|i: int| 0 <= i < insert_pos(s, x) implies !key_lt(x, #[trigger] s[i]) by {
            if i > 0 {
                assert(s[i] == s.drop_first()[i - 1]);
            }
        }
    }
}

proof fn lemma_key_transitive(a: Entry, b: Entry, c: Entry)
    requires
        key_lt(a, b),
        key_lt(b, c),
    ensures
        key_lt(a, c),
{
    if a.fire_at == b.fire_at && b.fire_at == c.fire_at {
        lemma_lex_transitive(a.id@, b.id@, c.id@);
    }
}

/// Inserting into a sorted sequence keeps it sorted.
proof fn lemma_insert_sorted(s: Seq<Entry>, x: Entry)
    requires
        sorted(s),
    ensures
        sorted(insert_sorted(s, x)),
        insert_sorted(s, x).len() == s.len() + 1,
{
    lemma_insert_pos(s, x);
    let p = insert_pos(s, x) as int;
    let r = insert_sorted(s, x);
    assert forall|i: int, j: int| 0 <= i < j < r.len() implies !key_lt(#[trigger] r[j], #[trigger] r[i]) by {
        if j < p {
            assert(r[i] == s[i] && r[j] == s[j]);
        } else if j == p {
            assert(r[i] == s[i] && r[j] == x);
        } else if i < p {
            assert(r[i] == s[i] && r[j] == s[j - 1]);
        } else if i == p {
            assert(r[i] == x && r[j] == s[j - 1]);
            if key_lt(s[j - 1], x) {
                lemma_key_transitive(s[j - 1], x, s[p]);
                if j - 1 > p {
                    assert(!key_lt(s[j - 1], s[p]));
                } else {
                    lemma_lex_irreflexive(s[p].id@);
                }
            }
        } else {
            assert(r[i] == s[i - 1] && r[j] == s[j - 1]);
        }
    }
}

/// The store's order: a stable sort is sorted by fire time, then id.
pub proof fn law_stable_sort_is_sorted(s: Seq<Entry>)
    ensures
        sorted(stable_sort(s)),
        stable_sort(s).len() == s.len(),
    decreases s.len(),
{
    if s.len() > 0 {
        law_stable_sort_is_sorted(s.drop_last());
        lemma_insert_sorted(stable_sort(s.drop_last()), s.last());
    }
}

/// Sorting keeps every entry: the sorted store holds the same entries, each
/// as often as before.
pub proof fn law_stable_sort_permutes(s: Seq<Entry>)
    ensures
        stable_sort(s).to_multiset() =~= s.to_multiset(),
        forall|x: Entry| stable_sort(s).contains(x) <==> s.contains(x),
    decreases s.len(),
{
    broadcast use vstd::seq_lib::group_to_multiset_ensures;

    if s.len() > 0 {
        let t = s.drop_last();
        law_stable_sort_permutes(t);
        lemma_insert_pos(stable_sort(t), s.last());
        vstd::seq_lib::to_multiset_insert(stable_sort(t), insert_pos(stable_sort(t), s.last()) as int, s.last());
        assert(s =~= t.push(s.last()));
    } else {
        assert(stable_sort(s) =~= s);
    }
    assert forall|x: Entry| stable_sort(s).contains(x) <==> s.contains(x) by {
        assert(stable_sort(s).to_multiset().count(x) == s.to_multiset().count(x));
    }
}

/// `without` keeps exactly the entries that do not have this kind and id.
pub proof fn law_without_removes(s: Seq<Entry>, kind: Kind, id: Seq<char>)
    ensures
        forall|x: Entry| #[trigger] without(s, kind, id).contains(x) <==> (s.contains(x) && !(x.kind == kind
            && x.id@ == id)),
        without(s, kind, id).len() <= s.len(),
    decreases s.len(),
{
    if s.len() > 0 {
        let t = s.drop_last();
        let l = s.last();
        let wt = without(t, kind, id);
        law_without_removes(t, kind, id);
        assert forall|x: Entry| #[trigger] without(s, kind, id).contains(x) <==> (s.contains(x) && !(x.kind
            == kind && x.id@ == id)) by {
            let ws = without(s, kind, id);
            if s.contains(x) && !(x.kind == kind && x.id@ == id) {
                let i = choose|i: int| 0 <= i < s.len() && s[i] == x;
                if i < s.len() - 1 {
                    assert(t[i] == x);
                    assert(wt.contains(x));
                    let k = choose|k: int| 0 <= k < wt.len() && wt[k] == x;
                    if !(l.kind == kind && l.id@ == id) {
                        assert(ws[k] == x);
                    }
                } else {
                    assert(x == l);
                    assert(ws[wt.len() as int] == x);
                }
            }
            if ws.contains(x) {
                let k = choose|k: int| 0 <= k < ws.len() && ws[k] == x;
                if k < wt.len() {
                    assert(wt[k] == x);
                    assert(wt.contains(x));
                    let i = choose|i: int| 0 <= i < t.len() && t[i] == x;
                    assert(s[i] == x);
                } else {
                    assert(x == l);
                    assert(s[s.len() - 1] == x);
                }
            }
        }
    }
}

/// Restoring splits the store by `now`: the entries still to come are those
/// firing after `now`, the ones already due are those firing at or before it,
/// and every entry lands in exactly one of the two.
pub proof fn law_split_due_partitions(s: Seq<Entry>, now: u64)
    ensures
        forall|x: Entry| #[trigger] due_after(s, now).contains(x) <==> (s.contains(x) && x.fire_at > now),
        forall|x: Entry| #[trigger] due_by(s, now).contains(x) <==> (s.contains(x) && x.fire_at <= now),
        due_after(s, now).len() + due_by(s, now).len() == s.len(),
    decreases s.len(),
{
    if s.len() > 0 {
        let t = s.drop_last();
        let l = s.last();
        law_split_due_partitions(t, now);
        let at = due_after(t, now);
        let bt = due_by(t, now);
        assert forall|x: Entry| #[trigger] due_after(s, now).contains(x) <==> (s.contains(x) && x.fire_at
            > now) by {
            let a = due_after(s, now);
            if s.contains(x) && x.fire_at > now {
                let i = choose|i: int| 0 <= i < s.len() && s[i] == x;
                if i < s.len() - 1 {
                    assert(t[i] == x);
                    assert(at.contains(x));
                    let k = choose|k: int| 0 <= k < at.len() && at[k] == x;
                    if l.fire_at > now {
                        assert(a[k] == x);
                    }
                } else {
                    assert(a[at.len() as int] == x);
                }
            }
            if a.contains(x) {
                let k = choose|k: int| 0 <= k < a.len() && a[k] == x;
                if k < at.len() {
                    assert(at[k] == x);
                    assert(at.contains(x));
                    let i = choose|i: int| 0 <= i < t.len() && t[i] == x;
                    assert(s[i] == x);
                } else {
                    assert(s[s.len() - 1] == x);
                }
            }
        }
        assert forall|x: Entry| #[trigger] due_by(s, now).contains(x) <==> (s.contains(x) && x.fire_at
            <= now) by {
            let b = due_by(s, now);
            if s.contains(x) && x.fire_at <= now {
                let i = choose|i: int| 0 <= i < s.len() && s[i] == x;
                if i < s.len() - 1 {
                    assert(t[i] == x);
                    assert(bt.contains(x));
                    let k = choose|k: int| 0 <= k < bt.len() && bt[k] == x;
                    if l.fire_at <= now {
                        assert(b[k] == x);
                    }
                } else {
                    assert(b[bt.len() as int] == x);
                }
            }
            if b.contains(x) {
                let k = choose|k: int| 0 <= k < b.len() && b[k] == x;
                if k < bt.len() {
                    assert(bt[k] == x);
                    assert(bt.contains(x));
                    let i = choose|i: int| 0 <= i < t.len() && t[i] == x;
                    assert(s[i] == x);
                } else {
                    assert(s[s.len() - 1] == x);
                }
            }
        }
    }
}

/// Adding an entry replaces any entry of the same kind and id: the store
/// after `with_entry` is sorted, holds the new entry, holds no other entry of
/// that kind and id, and keeps every other entry it had.
pub proof fn law_add_replaces_same_id(s: Seq<Entry>, e: Entry)
    ensures
        ({
            let r = stable_sort(without(s, e.kind, e.id@).push(e));
            &&& sorted(r)
            &&& r.contains(e)
            &&& forall|x: Entry| #[trigger] r.contains(x) && x.kind == e.kind && x.id@ == e.id@ ==> x == e
            &&& forall|x: Entry| #[trigger] s.contains(x) && !(x.kind == e.kind && x.id@ == e.id@) ==> r.contains(x)
        }),
{
    let w = without(s, e.kind, e.id@);
    let r = stable_sort(w.push(e));
    law_stable_sort_is_sorted(w.push(e));
    law_stable_sort_permutes(w.push(e));
    law_without_removes(s, e.kind, e.id@);
    assert(w.push(e)[w.len() as int] == e);
    assert(w.push(e).contains(e));
    assert forall|x: Entry| #[trigger] r.contains(x) && x.kind == e.kind && x.id@ == e.id@ implies x == e by {
        assert(w.push(e).contains(x));
        let i = choose|i: int| 0 <= i < w.push(e).len() && w.push(e)[i] == x;
        if i < w.len() {
            assert(w[i] == x);
            assert(w.contains(x));
        }
    }
    assert forall|x: Entry| #[trigger] s.contains(x) && !(x.kind == e.kind && x.id@ == e.id@) implies r.contains(x) by {
        assert(w.contains(x));
        let i = choose|i: int| 0 <= i < w.len() && w[i] == x;
        assert(w.push(e)[i] == x);
        assert(w.push(e).contains(x));
    }
}

fn key_less(a: &Entry, b: &Entry) -> (r: bool)
    ensures
        r == key_lt(*a, *b),
{
    if a.fire_at < b.fire_at {
        return true;
    }
    if a.fire_at > b.fire_at {
        return false;
    }
    lex_less(&chars_of(a.id.as_str()), &chars_of(b.id.as_str()))
}

/// Sort stably by fire time, then id.
pub fn sort_entries(entries: Vec<Entry>) -> (r: Vec<Entry>)
    ensures
        r@ == stable_sort(entries@),
{
    let ghost src = entries@;
    let n = entries.len();
    let mut rest = entries;
    let mut out: Vec<Entry> = Vec::new();
    let mut i: usize = 0;
    proof {
        assert(rest@ =~= src.skip(0));
        assert(src.take(0) =~= Seq::<Entry>::empty());
    }
    while rest.len() > 0
        invariant
            n == src.len(),
            i + rest@.len() == src.len(),
            rest@ == src.skip(i as int),
            out@ == stable_sort(src.take(i as int)),
        decreases rest.len(),
    {
        let e = rest.remove(0);
        proof {
            assert(e == src[i as int]);
            assert(rest@ =~= src.skip(i + 1));
            assert(src.take(i + 1).drop_last() =~= src.take(i as int));
            assert(src.take(i + 1).last() == e);
        }
        let mut p: usize = 0;
        proof {
            assert(out@.skip(0) =~= out@);
        }
        while p < out.len() && !key_less(&e, &out[p])
            invariant
                p <= out.len(),
                p + insert_pos(out@.skip(p as int), e) == insert_pos(out@, e),
            decreases out.len() - p,
        {
            proof {
                assert(out@.skip(p as int).drop_first() =~= out@.skip(p + 1));
            }
            p = p + 1;
        }
        out.insert(p, e);
        i = i + 1;
    }
    proof {
        assert(src.take(i as int) =~= src);
    }
    out
}

/// Persisting an entry: drop any entry of the same kind and id, append the
/// new one, and keep the store sorted.
pub fn with_entry(entries: Vec<Entry>, kind: Kind, id: String, fire_at: u64, text: String) -> (r: Vec<Entry>)
    ensures
        r@ == stable_sort(without(entries@, kind, id@).push(Entry { kind, id, fire_at, text })),
{
    let (kept, _) = remove_entry(entries, kind, id.as_str());
    let mut kept = kept;
    kept.push(Entry { kind, id, fire_at, text });
    sort_entries(kept)
}

/// Dropping the entries of this kind and id; also whether any was dropped.
pub fn remove_entry(entries: Vec<Entry>, kind: Kind, id: &str) -> (r: (Vec<Entry>, bool))
    ensures
        r.0@ == without(entries@, kind, id@),
        r.1 == (r.0@.len() != entries@.len()),
{
    let ghost src = entries@;
    let n = entries.len();
    let mut rest = entries;
    let mut out: Vec<Entry> = Vec::new();
    let idc = chars_of(id);
    let mut i: usize = 0;
    proof {
        assert(rest@ =~= src.skip(0));
        assert(src.take(0) =~= Seq::<Entry>::empty());
    }
    while rest.len() > 0
        invariant
            idc@ == id@,
            n == src.len(),
            i + rest@.len() == src.len(),
            rest@ == src.skip(i as int),
            out@ == without(src.take(i as int), kind, id@),
            out@.len() <= i,
        decreases rest.len(),
    {
        let e = rest.remove(0);
        proof {
            assert(e == src[i as int]);
            assert(rest@ =~= src.skip(i + 1));
            assert(src.take(i + 1).drop_last() =~= src.take(i as int));
            assert(src.take(i + 1).last() == e);
        }
        if !(e.kind == kind && eq_str(&idc, e.id.as_str())) {
            out.push(e);
        }
        i = i + 1;
    }
    proof {
        assert(src.take(i as int) =~= src);
    }
    let changed = out.len() != n;
    (out, changed)
}

/// Splitting the store into entries still due after `now` and those already past.
pub fn split_due(entries: Vec<Entry>, now: u64) -> (r: (Vec<Entry>, Vec<Entry>))
    ensures
        r.0@ == due_after(entries@, now),
        r.1@ == due_by(entries@, now),
{
    let ghost src = entries@;
    let n = entries.len();
    let mut rest = entries;
    let mut future: Vec<Entry> = Vec::new();
    let mut past: Vec<Entry> = Vec::new();
    let mut i: usize = 0;
    proof {
        assert(rest@ =~= src.skip(0));
        assert(src.take(0) =~= Seq::<Entry>::empty());
    }
    while rest.len() > 0
        invariant
            n == src.len(),
            i + rest@.len() == src.len(),
            rest@ == src.skip(i as int),
            future@ == due_after(src.take(i as int), now),
            past@ == due_by(src.take(i as int), now),
        decreases rest.len(),
    {
        let e = rest.remove(0);
        proof {
            assert(e == src[i as int]);
            assert(rest@ =~= src.skip(i + 1));
            assert(src.take(i + 1).drop_last() =~= src.take(i as int));
            assert(src.take(i + 1).last() == e);
        }
        if e.fire_at > now {
            future.push(e);
        } else {
            past.push(e);
        }
        i = i + 1;
    }
    proof {
        assert(src.take(i as int) =~= src);
    }
    (future, past)
}

/// The absolute fire time `secs` from `now` (saturating).
pub fn fire_time(now: u64, secs: u64) -> (r: u64)
    ensures
        r == if now + secs > u64::MAX {
            u64::MAX as int
        } else {
            now + secs
        },
{
    now.saturating_add(secs)
}

/// Seconds from `now` until `fire_at` (zero when past).
pub fn delay_until(fire_at: u64, now: u64) -> (r: u64)
    ensures
        r == if fire_at > now {
            fire_at - now
        } else {
            0
        },
{
    fire_at.saturating_sub(now)
}

} // verus!
