use vstd::prelude::*;

use crate::event::Event;
use crate::event::apply_snapshot_spec;
use crate::event::event_produces;
use crate::event::is_failure;
use crate::event::is_snapshot;
use crate::event::is_update_for;
use crate::event::run_spec;
use crate::event::snapshot_value;

verus! {

/// Pointwise effect of merging a snapshot: an existing entry is kept
/// unchanged, and an absent key receives the snapshot's (first) value for
/// it, if the snapshot has one.
pub proof fn lemma_apply_snapshot_key(
    m: Map<Seq<char>, u64>,
    entries: Seq<(Seq<char>, u64)>,
    key: Seq<char>,
)
    ensures
        m.contains_key(key) ==> apply_snapshot_spec(m, entries).contains_key(key)
            && apply_snapshot_spec(m, entries)[key] == m[key],
        !m.contains_key(key) ==> apply_snapshot_spec(m, entries).contains_key(key) == (
        snapshot_value(entries, key) is Some),
        !m.contains_key(key) && snapshot_value(entries, key) is Some ==> Some(
            apply_snapshot_spec(m, entries)[key],
        ) == snapshot_value(entries, key),
    decreases entries.len(),
{
    if entries.len() == 0 {
    } else {
        lemma_apply_snapshot_key(m, entries.drop_last(), key);
    }
}

/// An event that is neither a snapshot containing `key` nor a successful
/// update for `key` cannot produce `key`.
proof fn lemma_non_producer(e: Event, key: Seq<char>)
    requires
        !is_snapshot(e),
        !is_update_for(e, key),
    ensures
        !event_produces(e, key),
{
}

/// A run whose events never produce `key` leaves `key` exactly as it was:
/// still absent if it was absent, still bound to the same value otherwise.
pub proof fn lemma_run_untouched_key(
    m: Map<Seq<char>, u64>,
    events: Seq<Event>,
    key: Seq<char>,
)
    requires
        forall|i: int| 0 <= i < events.len() ==> !event_produces(#[trigger] events[i], key),
    ensures
        run_spec(m, events).contains_key(key) == m.contains_key(key),
        m.contains_key(key) ==> run_spec(m, events)[key] == m[key],
    decreases events.len(),
{
    if events.len() == 0 {
    } else {
        let prefix = events.drop_last();
        assert(forall|i: int| 0 <= i < prefix.len() ==> !event_produces(
            #[trigger] prefix[i],
            key,
        ));
        lemma_run_untouched_key(m, prefix, key);
        assert(!event_produces(events[events.len() - 1], key));
        match events.last() {
            Event::Snapshot(entries) => {
                lemma_apply_snapshot_key(run_spec(m, prefix), entries, key);
            },
            _ => {},
        }
    }
}

/// After a successful subscription update for `key`, with no later update
/// for the same key, `key` holds exactly the updated value — whatever
/// snapshots, updates for other keys, or failures surround it.
pub proof fn lemma_run_last_update(
    m: Map<Seq<char>, u64>,
    events: Seq<Event>,
    key: Seq<char>,
    value: u64,
    i: int,
)
    requires
        0 <= i < events.len(),
        events[i] == Event::Update(key, value),
        forall|j: int| i < j < events.len() ==> !is_update_for(#[trigger] events[j], key),
    ensures
        run_spec(m, events).contains_key(key),
        run_spec(m, events)[key] == value,
    decreases events.len(),
{
    if i == events.len() - 1 {
        assert(events.last() == Event::Update(key, value));
    } else {
        let prefix = events.drop_last();
        assert(forall|j: int| i < j < prefix.len() ==> !is_update_for(#[trigger] prefix[j], key));
        lemma_run_last_update(m, prefix, key, value, i);
        assert(!is_update_for(events[events.len() - 1], key));
        match events.last() {
            Event::Snapshot(entries) => {
                lemma_apply_snapshot_key(run_spec(m, prefix), entries, key);
            },
            _ => {},
        }
    }
}

/// A run over a concatenation is the run over the first part, continued
/// over the second.
pub proof fn lemma_run_append(m: Map<Seq<char>, u64>, s1: Seq<Event>, s2: Seq<Event>)
    ensures
        run_spec(m, s1 + s2) == run_spec(run_spec(m, s1), s2),
    decreases s2.len(),
{
    if s2.len() == 0 {
        assert(s1 + s2 =~= s1);
    } else {
        lemma_run_append(m, s1, s2.drop_last());
        assert((s1 + s2).drop_last() =~= s1 + s2.drop_last());
        assert((s1 + s2).last() == s2.last());
    }
}

/// A key that neither source ever produces is absent at every point of the
/// run: after any prefix of the event sequence, the lookup still misses.
pub proof fn lemma_never_produced_absent(events: Seq<Event>, key: Seq<char>)
    requires
        forall|i: int| 0 <= i < events.len() ==> !event_produces(#[trigger] events[i], key),
    ensures
        forall|n: int| 0 <= n <= events.len() ==> !run_spec(
            Map::<Seq<char>, u64>::empty(),
            #[trigger] events.take(n),
        ).contains_key(key),
{
    assert forall|n: int| 0 <= n <= events.len() implies !run_spec(
        Map::<Seq<char>, u64>::empty(),
        #[trigger] events.take(n),
    ).contains_key(key) by {
        let prefix = events.take(n);
        assert(forall|i: int| 0 <= i < prefix.len() ==> !event_produces(
            #[trigger] prefix[i],
            key,
        ));
        lemma_run_untouched_key(Map::<Seq<char>, u64>::empty(), prefix, key);
    }
}

/// If the fetch fails entirely (no snapshot event anywhere) and the
/// subscription produces (`key`, `value`) with no later update for `key`,
/// the final store holds exactly that value for `key`.
pub proof fn lemma_subscription_only(events: Seq<Event>, key: Seq<char>, value: u64, i: int)
    requires
        forall|j: int| 0 <= j < events.len() ==> !is_snapshot(#[trigger] events[j]),
        0 <= i < events.len(),
        events[i] == Event::Update(key, value),
        forall|j: int| i < j < events.len() ==> !is_update_for(#[trigger] events[j], key),
    ensures
        run_spec(Map::<Seq<char>, u64>::empty(), events).contains_key(key),
        run_spec(Map::<Seq<char>, u64>::empty(), events)[key] == value,
{
    lemma_run_last_update(Map::<Seq<char>, u64>::empty(), events, key, value, i);
}

/// If the one snapshot assigns `value` to `key` and no subscription update
/// for `key` ever arrives, the final store holds exactly that value for
/// `key`.
pub proof fn lemma_snapshot_only(
    events: Seq<Event>,
    entries: Seq<(Seq<char>, u64)>,
    key: Seq<char>,
    value: u64,
    i: int,
)
    requires
        0 <= i < events.len(),
        events[i] == Event::Snapshot(entries),
        snapshot_value(entries, key) == Some(value),
        forall|j: int| 0 <= j < events.len() && j != i ==> !is_snapshot(#[trigger] events[j]),
        forall|j: int| 0 <= j < events.len() ==> !is_update_for(#[trigger] events[j], key),
    ensures
        run_spec(Map::<Seq<char>, u64>::empty(), events).contains_key(key),
        run_spec(Map::<Seq<char>, u64>::empty(), events)[key] == value,
{
    let m0 = Map::<Seq<char>, u64>::empty();
    let pre = events.subrange(0, i);
    let mid = events.subrange(i, i + 1);
    let post = events.subrange(i + 1, events.len() as int);
    assert(events =~= (pre + mid) + post);
    lemma_run_append(m0, pre + mid, post);
    lemma_run_append(m0, pre, mid);
    assert forall|l: int| 0 <= l < pre.len() implies !event_produces(#[trigger] pre[l], key) by {
        lemma_non_producer(pre[l], key);
    }
    lemma_run_untouched_key(m0, pre, key);
    let m1 = run_spec(m0, pre);
    assert(mid.drop_last() =~= Seq::<Event>::empty());
    assert(run_spec(m1, mid.drop_last()) == m1);
    assert(run_spec(m1, mid) == apply_snapshot_spec(m1, entries));
    lemma_apply_snapshot_key(m1, entries, key);
    let m2 = run_spec(m0, pre + mid);
    assert(m2.contains_key(key) && Some(m2[key]) == Some(value));
    assert forall|l: int| 0 <= l < post.len() implies !event_produces(
        #[trigger] post[l],
        key,
    ) by {
        lemma_non_producer(post[l], key);
    }
    lemma_run_untouched_key(m2, post, key);
}

/// The subscription always wins on a shared key, regardless of arrival
/// order: if the snapshot assigns `v1` to `key` and the last subscription
/// update for `key` carries `v2` — whether it lands before or after the
/// snapshot — the final store holds `v2`.
pub proof fn lemma_subscription_wins(
    events: Seq<Event>,
    entries: Seq<(Seq<char>, u64)>,
    key: Seq<char>,
    v1: u64,
    v2: u64,
    i: int,
    j: int,
)
    requires
        0 <= i < events.len(),
        events[i] == Event::Snapshot(entries),
        snapshot_value(entries, key) == Some(v1),
        0 <= j < events.len(),
        events[j] == Event::Update(key, v2),
        forall|l: int| j < l < events.len() ==> !is_update_for(#[trigger] events[l], key),
    ensures
        run_spec(Map::<Seq<char>, u64>::empty(), events).contains_key(key),
        run_spec(Map::<Seq<char>, u64>::empty(), events)[key] == v2,
{
    lemma_run_last_update(Map::<Seq<char>, u64>::empty(), events, key, v2, j);
}

/// Within the subscription alone, the last write wins: if updates for
/// `key` arrive first with `v1` and later with `v2`, and no update for
/// `key` follows, the final store holds `v2`.
pub proof fn lemma_last_update_wins(
    events: Seq<Event>,
    key: Seq<char>,
    v1: u64,
    v2: u64,
    i: int,
    j: int,
)
    requires
        0 <= i < j < events.len(),
        events[i] == Event::Update(key, v1),
        events[j] == Event::Update(key, v2),
        forall|l: int| j < l < events.len() ==> !is_update_for(#[trigger] events[l], key),
    ensures
        run_spec(Map::<Seq<char>, u64>::empty(), events).contains_key(key),
        run_spec(Map::<Seq<char>, u64>::empty(), events)[key] == v2,
{
    lemma_run_last_update(Map::<Seq<char>, u64>::empty(), events, key, v2, j);
}

/// A single failing item blocks nothing and drops nothing else: the run
/// equals the run over the same sequence with that item removed, so every
/// other event still takes its full effect.
pub proof fn lemma_failure_skipped(m: Map<Seq<char>, u64>, events: Seq<Event>, i: int)
    requires
        0 <= i < events.len(),
        is_failure(events[i]),
    ensures
        run_spec(m, events) == run_spec(
            m,
            events.subrange(0, i) + events.subrange(i + 1, events.len() as int),
        ),
{
    let pre = events.subrange(0, i);
    let mid = events.subrange(i, i + 1);
    let post = events.subrange(i + 1, events.len() as int);
    assert(events =~= (pre + mid) + post);
    lemma_run_append(m, pre + mid, post);
    lemma_run_append(m, pre, mid);
    lemma_run_append(m, pre, post);
    let m1 = run_spec(m, pre);
    assert(mid.drop_last() =~= Seq::<Event>::empty());
    assert(run_spec(m1, mid.drop_last()) == m1);
    assert(run_spec(m1, mid) == m1);
}

} // verus!
