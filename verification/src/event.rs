use vstd::prelude::*;

verus! {

/// One outcome observed by the reconciler from one of the two upstream
/// sources: the one-shot bulk fetch or the live subscription stream.
pub enum SourceEvent {
    /// The bulk fetch succeeded and returned these entries.
    Snapshot(Vec<(String, u64)>),
    /// The bulk fetch failed; it contributes nothing to the store.
    FetchFailed,
    /// The subscription produced one successful key/value update.
    Update(String, u64),
    /// The subscription produced one failed item; it is skipped.
    UpdateFailed,
}

/// The mathematical counterpart of `SourceEvent`: keys as character
/// sequences, a snapshot as a sequence of entries.
pub enum Event {
    Snapshot(Seq<(Seq<char>, u64)>),
    FetchFailed,
    Update(Seq<char>, u64),
    UpdateFailed,
}

impl View for SourceEvent {
    type V = Event;

    open spec fn view(&self) -> Event {
        match self {
            SourceEvent::Snapshot(entries) => Event::Snapshot(entries.deep_view()),
            SourceEvent::FetchFailed => Event::FetchFailed,
            SourceEvent::Update(key, value) => Event::Update(key@, *value),
            SourceEvent::UpdateFailed => Event::UpdateFailed,
        }
    }
}

impl DeepView for SourceEvent {
    type V = Event;

    open spec fn deep_view(&self) -> Event {
        self.view()
    }
}

/// The insert-if-absent write policy of the bulk snapshot: an existing
/// entry is never overwritten.
pub open spec fn insert_if_absent_spec(
    m: Map<Seq<char>, u64>,
    key: Seq<char>,
    value: u64,
) -> Map<Seq<char>, u64> {
    if m.contains_key(key) {
        m
    } else {
        m.insert(key, value)
    }
}

/// A whole snapshot applied entry by entry, in sequence order, each with
/// insert-if-absent semantics (so for duplicate keys the first entry wins).
pub open spec fn apply_snapshot_spec(
    m: Map<Seq<char>, u64>,
    entries: Seq<(Seq<char>, u64)>,
) -> Map<Seq<char>, u64>
    decreases entries.len(),
{
    if entries.len() == 0 {
        m
    } else {
        insert_if_absent_spec(
            apply_snapshot_spec(m, entries.drop_last()),
            entries.last().0,
            entries.last().1,
        )
    }
}

/// One reconciliation step: a snapshot is merged with insert-if-absent
/// semantics, a subscription update overwrites, and either kind of failure
/// leaves the store unchanged.
pub open spec fn apply_event_spec(m: Map<Seq<char>, u64>, e: Event) -> Map<Seq<char>, u64> {
    match e {
        Event::Snapshot(entries) => apply_snapshot_spec(m, entries),
        Event::FetchFailed => m,
        Event::Update(key, value) => m.insert(key, value),
        Event::UpdateFailed => m,
    }
}

/// The store after a whole sequence of events has been applied in order.
pub open spec fn run_spec(m: Map<Seq<char>, u64>, events: Seq<Event>) -> Map<Seq<char>, u64>
    decreases events.len(),
{
    if events.len() == 0 {
        m
    } else {
        apply_event_spec(run_spec(m, events.drop_last()), events.last())
    }
}

/// The value a snapshot assigns to `key`: the value of the first entry for
/// that key, or `None` if the snapshot has no entry for it.
pub open spec fn snapshot_value(entries: Seq<(Seq<char>, u64)>, key: Seq<char>) -> Option<u64>
    decreases entries.len(),
{
    if entries.len() == 0 {
        None
    } else {
        let earlier = snapshot_value(entries.drop_last(), key);
        if earlier is Some {
            earlier
        } else if entries.last().0 == key {
            Some(entries.last().1)
        } else {
            None
        }
    }
}

/// Whether applying this event could create or change an entry for `key`.
pub open spec fn event_produces(e: Event, key: Seq<char>) -> bool {
    match e {
        Event::Snapshot(entries) => snapshot_value(entries, key) is Some,
        Event::FetchFailed => false,
        Event::Update(k, _) => k == key,
        Event::UpdateFailed => false,
    }
}

/// Whether this event is a successful subscription update for `key`.
pub open spec fn is_update_for(e: Event, key: Seq<char>) -> bool {
    match e {
        Event::Update(k, _) => k == key,
        _ => false,
    }
}

/// Whether this event is a successful bulk-fetch snapshot.
pub open spec fn is_snapshot(e: Event) -> bool {
    e is Snapshot
}

/// Whether this event is a failure of either source.
pub open spec fn is_failure(e: Event) -> bool {
    e is FetchFailed || e is UpdateFailed
}

} // verus!
