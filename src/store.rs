//! The event store: an append-only log, deduplicated by identifier and kept
//! in log order.
use vstd::prelude::*;
use crate::event::{key_before, Event, EventView};
use crate::order::{lemma_id_irreflexive, lemma_id_total, lemma_id_transitive};

verus! {

/// Every earlier entry sorts strictly before every later one.
pub open spec fn sorted(s: Seq<EventView>) -> bool {
    forall|i: int, j: int| 0 <= i < j < s.len() ==> key_before(s[i], s[j])
}

/// No two entries share an identifier.
pub open spec fn ids_unique(s: Seq<EventView>) -> bool {
    forall|i: int, j: int|
        0 <= i < s.len() && 0 <= j < s.len() && i != j ==> s[i].id != s[j].id
}

/// A well-formed log: sorted, with unique identifiers.
pub open spec fn log_wf(s: Seq<EventView>) -> bool {
    sorted(s) && ids_unique(s)
}

/// The log holds an event with identifier `id`.
pub open spec fn holds_id(s: Seq<EventView>, id: Seq<char>) -> bool {
    exists|i: int| 0 <= i < s.len() && s[i].id == id
}

/// `e` placed into `s` in front of the first entry that sorts after it.
pub open spec fn sorted_insert(s: Seq<EventView>, e: EventView) -> Seq<EventView>
    decreases s.len(),
{
    if s.len() == 0 {
        seq![e]
    } else if key_before(e, s[0]) {
        seq![e] + s
    } else {
        seq![s[0]] + sorted_insert(s.drop_first(), e)
    }
}

/// The log after an insert of `e`: unchanged if it already holds `e`'s
/// identifier, otherwise with `e` in its place.
pub open spec fn inserted(s: Seq<EventView>, e: EventView) -> Seq<EventView> {
    if holds_id(s, e.id) {
        s
    } else {
        sorted_insert(s, e)
    }
}

/// The entries of `s` whose timestamp is strictly greater than `since`, in
/// the order of `s`.
pub open spec fn newer_than(s: Seq<EventView>, since: i64) -> Seq<EventView> {
    s.filter(|e: EventView| e.timestamp > since)
}

pub proof fn lemma_key_irreflexive(a: EventView)
    ensures
        !key_before(a, a),
{
    lemma_id_irreflexive(a.id);
}

pub proof fn lemma_key_transitive(a: EventView, b: EventView, c: EventView)
    requires
        key_before(a, b),
        key_before(b, c),
    ensures
        key_before(a, c),
{
    if a.timestamp == b.timestamp && b.timestamp == c.timestamp {
        lemma_id_transitive(a.id, b.id, c.id);
    }
}

pub proof fn lemma_key_asymmetric(a: EventView, b: EventView)
    requires
        key_before(a, b),
    ensures
        !key_before(b, a),
{
    if key_before(b, a) {
        lemma_key_transitive(a, b, a);
        lemma_key_irreflexive(a);
    }
}

/// Events with distinct identifiers are ordered one way or the other.
pub proof fn lemma_key_total(a: EventView, b: EventView)
    requires
        a.id != b.id,
    ensures
        key_before(a, b) || key_before(b, a),
{
    lemma_id_total(a.id, b.id);
}

/// `sorted_insert` places `e` at the first position whose entry sorts after it.
pub proof fn lemma_sorted_insert_at(s: Seq<EventView>, e: EventView, p: int)
    requires
        0 <= p <= s.len(),
        forall|k: int| 0 <= k < p ==> !key_before(e, #[trigger] s[k]),
        p == s.len() || key_before(e, s[p]),
    ensures
        sorted_insert(s, e) == s.insert(p, e),
    decreases p,
{
    if p == 0 {
        if s.len() == 0 {
            assert(seq![e] =~= s.insert(0, e));
        } else {
            assert(seq![e] + s =~= s.insert(0, e));
        }
    } else {
        let t = s.drop_first();
        assert forall|k: int| 0 <= k < p - 1 implies !key_before(e, #[trigger] t[k]) by {
            assert(t[k] == s[k + 1]);
        }
        lemma_sorted_insert_at(t, e, p - 1);
        assert(seq![s[0]] + t.insert(p - 1, e) =~= s.insert(p, e));
    }
}

/// Placing a new identifier at its sorted position keeps the log well formed.
pub proof fn lemma_insert_keeps_wf(s: Seq<EventView>, e: EventView, p: int)
    requires
        log_wf(s),
        !holds_id(s, e.id),
        0 <= p <= s.len(),
        forall|k: int| 0 <= k < p ==> key_before(#[trigger] s[k], e),
        p == s.len() || key_before(e, s[p]),
    ensures
        log_wf(s.insert(p, e)),
{
    let t = s.insert(p, e);
    assert forall|i: int, j: int| 0 <= i < j < t.len() implies key_before(t[i], t[j]) by {
        if j == p {
            assert(t[i] == s[i]);
        } else if i == p {
            assert(t[j] == s[j - 1]);
            if j - 1 > p {
                lemma_key_transitive(e, s[p], s[j - 1]);
            }
        } else if j < p {
            assert(t[i] == s[i] && t[j] == s[j]);
        } else if i < p {
            assert(t[i] == s[i] && t[j] == s[j - 1]);
        } else {
            assert(t[i] == s[i - 1] && t[j] == s[j - 1]);
        }
    }
    assert forall|i: int, j: int|
        0 <= i < t.len() && 0 <= j < t.len() && i != j implies t[i].id != t[j].id by {
        if i != p && j != p {
            let si = if i < p { i } else { i - 1 };
            let sj = if j < p { j } else { j - 1 };
            assert(t[i] == s[si] && t[j] == s[sj]);
        } else if i == p {
            let sj = if j < p { j } else { j - 1 };
            assert(t[j] == s[sj]);
        } else {
            let si = if i < p { i } else { i - 1 };
            assert(t[i] == s[si]);
        }
    }
}

/// The log of events, held in log order with no identifier twice.
pub struct EventStore {
    events: Vec<Event>,
}

impl View for EventStore {
    type V = Seq<EventView>;

    closed spec fn view(&self) -> Seq<EventView> {
        self.events@.map_values(|e: Event| e@)
    }
}

impl EventStore {
    /// The store's invariant.
    pub open spec fn wf(&self) -> bool {
        log_wf(self@)
    }

    /// An empty store.
    pub fn new() -> (r: EventStore)
        ensures
            r.wf(),
            r@ == Seq::<EventView>::empty(),
    {
        let r = EventStore { events: Vec::new() };
        assert(r@ =~= Seq::<EventView>::empty());
        r
    }

    /// The number of events held.
    pub fn len(&self) -> (r: usize)
        ensures
            r == self@.len(),
    {
        self.events.len()
    }

    /// Whether an event with identifier `id` is held.
    pub fn contains_id(&self, id: &String) -> (r: bool)
        ensures
            r == holds_id(self@, id@),
    {
        let mut i: usize = 0;
        while i < self.events.len()
            invariant
                i <= self.events.len(),
                self@.len() == self.events.len(),
                forall|k: int| 0 <= k < i ==> self@[k].id != id@,
            decreases self.events.len() - i,
        {
            assert(self@[i as int] == self.events[i as int]@);
            if self.events[i].id == *id {
                return true;
            }
            i = i + 1;
        }
        false
    }

    /// Stores `event` unless an event with its identifier is already held,
    /// in which case nothing changes. Returns whether the event was new.
    pub fn insert(&mut self, event: Event) -> (added: bool)
        requires
            old(self).wf(),
        ensures
            final(self).wf(),
            final(self)@ == inserted(old(self)@, event@),
            added == !holds_id(old(self)@, event@.id),
    {
        if self.contains_id(&event.id) {
            return false;
        }
        let ghost s = self@;
        let mut p: usize = 0;
        while p < self.events.len() && self.events[p].precedes(&event)
            invariant
                self@ == s,
                p <= self.events.len(),
                s.len() == self.events.len(),
                forall|k: int| 0 <= k < p ==> key_before(#[trigger] s[k], event@),
            decreases self.events.len() - p,
        {
            assert(s[p as int] == self.events[p as int]@);
            p = p + 1;
        }
        proof {
            if p < s.len() {
                assert(s[p as int] == self.events[p as int]@);
                assert(s[p as int].id != event@.id);
                lemma_key_total(event@, s[p as int]);
            }
            assert forall|k: int| 0 <= k < p implies !key_before(event@, #[trigger] s[k]) by {
                lemma_key_asymmetric(s[k], event@);
            }
            lemma_sorted_insert_at(s, event@, p as int);
            lemma_insert_keeps_wf(s, event@, p as int);
        }
        let ghost ev = event@;
        self.events.insert(p, event);
        assert(self@ =~= s.insert(p as int, ev));
        true
    }

    /// The events with a timestamp strictly greater than `since`, in log order.
    pub fn query_after(&self, since: i64) -> (r: Vec<Event>)
        ensures
            r@.map_values(|e: Event| e@) == newer_than(self@, since),
    {
        let mut r: Vec<Event> = Vec::new();
        let mut i: usize = 0;
        assert(self@.take(0) =~= Seq::<EventView>::empty());
        proof {
            reveal(Seq::filter);
        }
        assert(r@.map_values(|e: Event| e@) =~= newer_than(self@.take(0), since));
        while i < self.events.len()
            invariant
                i <= self.events.len(),
                self@.len() == self.events.len(),
                r@.map_values(|e: Event| e@) == newer_than(self@.take(i as int), since),
            decreases self.events.len() - i,
        {
            let ghost before = r@.map_values(|e: Event| e@);
            assert(self@[i as int] == self.events[i as int]@);
            if self.events[i].timestamp > since {
                let e = self.events[i].duplicate();
                r.push(e);
                assert(r@.map_values(|e: Event| e@) =~= before.push(self@[i as int]));
            }
            proof {
                reveal(Seq::filter);
                assert(self@.take(i + 1).drop_last() =~= self@.take(i as int));
                assert(self@.take(i + 1).last() == self@[i as int]);
            }
            i = i + 1;
        }
        assert(self@.take(self@.len() as int) =~= self@);
        r
    }
}

/// Stores a copy of `event` unless an event with its identifier is already
/// held; a duplicate changes nothing and is no failure. Returns whether the
/// event was new.
pub fn insert_event(store: &mut EventStore, event: &Event) -> (added: bool)
    requires
        old(store).wf(),
    ensures
        final(store).wf(),
        final(store)@ == inserted(old(store)@, event@),
        added == !holds_id(old(store)@, event@.id),
{
    store.insert(event.duplicate())
}

/// The events with a timestamp strictly greater than `since`, in log order.
pub fn get_events_since(store: &EventStore, since: i64) -> (r: Vec<Event>)
    ensures
        r@.map_values(|e: Event| e@) == newer_than(store@, since),
{
    store.query_after(since)
}

} // verus!
