//! Properties of the log that hold across calls.
use vstd::prelude::*;
use crate::event::{key_before, EventView};
use crate::order::id_before;
use crate::store::{
    holds_id, inserted, lemma_key_asymmetric, lemma_key_irreflexive, log_wf, newer_than,
    sorted, sorted_insert,
};

verus! {

broadcast use vstd::seq_lib::group_filter_ensures;

/// `sorted_insert` adds `e` and keeps every entry of `s`, and nothing else.
pub proof fn lemma_sorted_insert_contents(s: Seq<EventView>, e: EventView)
    ensures
        sorted_insert(s, e).len() == s.len() + 1,
        sorted_insert(s, e).contains(e),
        forall|x: EventView| #[trigger]
            sorted_insert(s, e).contains(x) <==> (x == e || s.contains(x)),
    decreases s.len(),
{
    let r = sorted_insert(s, e);
    if s.len() == 0 {
        assert(r[0] == e);
    } else if key_before(e, s[0]) {
        assert(r[0] == e);
        assert forall|x: EventView| #[trigger] r.contains(x) <==> (x == e || s.contains(x)) by {
            if s.contains(x) {
                let i = choose|i: int| 0 <= i < s.len() && s[i] == x;
                assert(r[i + 1] == x);
            }
            if r.contains(x) && x != e {
                let i = choose|i: int| 0 <= i < r.len() && r[i] == x;
                assert(s[i - 1] == x);
            }
        }
    } else {
        let t = s.drop_first();
        lemma_sorted_insert_contents(t, e);
        let rt = sorted_insert(t, e);
        assert(r == seq![s[0]] + rt);
        let j = choose|j: int| 0 <= j < rt.len() && rt[j] == e;
        assert(r[j + 1] == e);
        assert forall|x: EventView| #[trigger] r.contains(x) <==> (x == e || s.contains(x)) by {
            if s.contains(x) {
                let i = choose|i: int| 0 <= i < s.len() && s[i] == x;
                if i == 0 {
                    assert(r[0] == x);
                } else {
                    assert(t[i - 1] == x);
                    assert(rt.contains(x));
                    let k = choose|k: int| 0 <= k < rt.len() && rt[k] == x;
                    assert(r[k + 1] == x);
                }
            }
            if r.contains(x) && x != e {
                let i = choose|i: int| 0 <= i < r.len() && r[i] == x;
                if i == 0 {
                    assert(s[0] == x);
                } else {
                    assert(rt[i - 1] == x);
                    assert(rt.contains(x));
                    assert(t.contains(x));
                    let k = choose|k: int| 0 <= k < t.len() && t[k] == x;
                    assert(s[k + 1] == x);
                }
            }
        }
    }
}

/// After an insert the log holds the inserted identifier.
pub proof fn lemma_inserted_holds_id(s: Seq<EventView>, e: EventView)
    ensures
        holds_id(inserted(s, e), e.id),
{
    if !holds_id(s, e.id) {
        lemma_sorted_insert_contents(s, e);
        let r = sorted_insert(s, e);
        let j = choose|j: int| 0 <= j < r.len() && r[j] == e;
        assert(r[j].id == e.id);
    }
}

/// Inserting the same event twice leaves the log as inserting it once, and
/// so every pull sees the same events.
pub proof fn lemma_insert_idempotent(s: Seq<EventView>, e: EventView, since: i64)
    ensures
        inserted(inserted(s, e), e) == inserted(s, e),
        newer_than(inserted(inserted(s, e), e), since) == newer_than(inserted(s, e), since),
{
    lemma_inserted_holds_id(s, e);
}

/// Once `a` and then `b` are inserted, a pull from a cursor at or past `a`'s
/// timestamp and before `b`'s returns `b` and not `a`, provided `b` brings an
/// identifier that the log does not already hold.
pub proof fn lemma_monotonic_visibility(s: Seq<EventView>, a: EventView, b: EventView, t: i64)
    requires
        a.timestamp <= t < b.timestamp,
        !holds_id(s, b.id),
        a.id != b.id,
    ensures
        newer_than(inserted(inserted(s, a), b), t).contains(b),
        !newer_than(inserted(inserted(s, a), b), t).contains(a),
{
    let s1 = inserted(s, a);
    if !holds_id(s, a.id) {
        lemma_sorted_insert_contents(s, a);
    }
    if holds_id(s1, b.id) {
        let i = choose|i: int| 0 <= i < s1.len() && s1[i].id == b.id;
        assert(s1.contains(s1[i]));
    }
    lemma_sorted_insert_contents(s1, b);
    let s2 = sorted_insert(s1, b);
    let j = choose|j: int| 0 <= j < s2.len() && s2[j] == b;
    assert(s2[j].timestamp > t);
    let q = newer_than(s2, t);
    if q.contains(a) {
        let k = choose|k: int| 0 <= k < q.len() && q[k] == a;
        assert(q[k].timestamp > t);
    }
}

/// A pull from a well-formed log comes out in log order.
pub proof fn lemma_newer_than_sorted(s: Seq<EventView>, since: i64)
    requires
        sorted(s),
    ensures
        sorted(newer_than(s, since)),
    decreases s.len(),
{
    reveal(Seq::filter);
    if s.len() > 0 {
        let t = s.drop_last();
        assert(sorted(t)) by {
            assert forall|i: int, j: int| 0 <= i < j < t.len() implies key_before(t[i], t[j]) by {
                assert(t[i] == s[i] && t[j] == s[j]);
            }
        }
        lemma_newer_than_sorted(t, since);
        let qt = newer_than(t, since);
        let q = newer_than(s, since);
        if s.last().timestamp > since {
            assert(q == qt.push(s.last()));
            assert forall|i: int, j: int| 0 <= i < j < q.len() implies key_before(q[i], q[j]) by {
                if j == q.len() - 1 {
                    assert(q[i] == qt[i]);
                    assert(qt.contains(qt[i]));
                    t.lemma_filter_contains_rev(|e: EventView| e.timestamp > since, qt[i]);
                    let k = choose|k: int| 0 <= k < t.len() && t[k] == qt[i];
                    assert(s[k] == qt[i]);
                } else {
                    assert(q[i] == qt[i] && q[j] == qt[j]);
                }
            }
        } else {
            assert(q == qt);
        }
    }
}

/// Two sequences in strict log order that hold the same events are equal.
pub proof fn lemma_sorted_unique(a: Seq<EventView>, b: Seq<EventView>)
    requires
        sorted(a),
        sorted(b),
        forall|x: EventView| a.contains(x) <==> b.contains(x),
    ensures
        a == b,
    decreases a.len(),
{
    if a.len() == 0 {
        if b.len() > 0 {
            assert(b.contains(b[0]));
        }
        assert(a =~= b);
    } else {
        assert(a.contains(a[0]));
        assert(b.len() > 0);
        assert(b.contains(b[0]));
        let i = choose|i: int| 0 <= i < a.len() && a[i] == b[0];
        let j = choose|j: int| 0 <= j < b.len() && b[j] == a[0];
        if a[0] != b[0] {
            assert(key_before(a[0], a[i]));
            assert(key_before(b[0], b[j]));
            lemma_key_asymmetric(a[0], b[0]);
        }
        let ta = a.drop_first();
        let tb = b.drop_first();
        assert forall|x: EventView| ta.contains(x) <==> tb.contains(x) by {
            if ta.contains(x) {
                let k = choose|k: int| 0 <= k < ta.len() && ta[k] == x;
                assert(a[k + 1] == x);
                assert(key_before(a[0], x));
                lemma_key_irreflexive(x);
                assert(b.contains(x));
                let m = choose|m: int| 0 <= m < b.len() && b[m] == x;
                assert(m != 0);
                assert(tb[m - 1] == x);
            }
            if tb.contains(x) {
                let k = choose|k: int| 0 <= k < tb.len() && tb[k] == x;
                assert(b[k + 1] == x);
                assert(key_before(b[0], x));
                lemma_key_irreflexive(x);
                assert(a.contains(x));
                let m = choose|m: int| 0 <= m < a.len() && a[m] == x;
                assert(m != 0);
                assert(ta[m - 1] == x);
            }
        }
        assert(sorted(ta)) by {
            assert forall|p: int, q: int| 0 <= p < q < ta.len() implies key_before(ta[p], ta[q]) by {
                assert(ta[p] == a[p + 1] && ta[q] == a[q + 1]);
            }
        }
        assert(sorted(tb)) by {
            assert forall|p: int, q: int| 0 <= p < q < tb.len() implies key_before(tb[p], tb[q]) by {
                assert(tb[p] == b[p + 1] && tb[q] == b[q + 1]);
            }
        }
        lemma_sorted_unique(ta, tb);
        assert(a =~= seq![a[0]] + ta);
        assert(b =~= seq![b[0]] + tb);
    }
}

/// A pull's order is fixed by the events it returns: any sequence in log
/// order holding the same events is that very pull, so repeated pulls with
/// the same cursor over an unchanged log agree entry for entry.
pub proof fn lemma_pull_order_stable(s: Seq<EventView>, since: i64, other: Seq<EventView>)
    requires
        log_wf(s),
        sorted(other),
        forall|x: EventView| other.contains(x) <==> newer_than(s, since).contains(x),
    ensures
        sorted(newer_than(s, since)),
        other == newer_than(s, since),
{
    lemma_newer_than_sorted(s, since);
    lemma_sorted_unique(other, newer_than(s, since));
}

/// Two held events with equal timestamps both come back from a pull whose
/// cursor is below that timestamp, the one with the smaller identifier first.
pub proof fn lemma_tie_order(s: Seq<EventView>, a: EventView, b: EventView, since: i64)
    requires
        log_wf(s),
        s.contains(a),
        s.contains(b),
        a.timestamp == b.timestamp,
        id_before(a.id, b.id),
        since < a.timestamp,
    ensures
        exists|i: int, j: int|
            0 <= i < j < newer_than(s, since).len() && newer_than(s, since)[i] == a
                && newer_than(s, since)[j] == b,
{
    let q = newer_than(s, since);
    lemma_newer_than_sorted(s, since);
    let ia = choose|i: int| 0 <= i < s.len() && s[i] == a;
    let ib = choose|i: int| 0 <= i < s.len() && s[i] == b;
    assert(q.contains(s[ia]));
    assert(q.contains(s[ib]));
    let i = choose|i: int| 0 <= i < q.len() && q[i] == a;
    let j = choose|j: int| 0 <= j < q.len() && q[j] == b;
    assert(key_before(a, b));
    lemma_key_asymmetric(a, b);
    lemma_key_irreflexive(a);
    if j < i {
        assert(key_before(q[j], q[i]));
    }
    assert(i != j);
}

/// An event accepted with a new identifier comes back, all seven fields
/// equal, from a pull whose cursor is one below its timestamp.
pub proof fn lemma_round_trip(s: Seq<EventView>, e: EventView)
    requires
        !holds_id(s, e.id),
        e.timestamp > i64::MIN,
    ensures
        newer_than(inserted(s, e), (e.timestamp - 1) as i64).contains(e),
{
    lemma_sorted_insert_contents(s, e);
    let r = sorted_insert(s, e);
    let j = choose|j: int| 0 <= j < r.len() && r[j] == e;
    assert(r[j].timestamp > (e.timestamp - 1) as i64);
}

} // verus!
