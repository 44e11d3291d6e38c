use vstd::prelude::*;

use vstd::hash_map::StringHashMap;

use crate::event::SourceEvent;
use crate::event::apply_event_spec;
use crate::event::apply_snapshot_spec;
use crate::event::insert_if_absent_spec;
use crate::event::run_spec;

verus! {

/// The write policy of a single store mutation.
#[derive(Clone, Copy)]
pub enum ApplyMode {
    /// Write only if the key has no entry yet: the bulk-snapshot policy.
    InsertIfAbsent,
    /// Write unconditionally, replacing any existing value: the
    /// subscription policy.
    Overwrite,
}

/// An in-memory cache mapping each key to the latest applied value.
///
/// The cache starts empty and is filled by reconciling two sources: a
/// one-shot bulk snapshot, whose entries never overwrite, and a stream of
/// subscription updates, which always overwrite. A failure of either
/// source is silently skipped; lookups degrade to absence, never to an
/// error.
pub struct StreamCache {
    results: StringHashMap<u64>,
}

impl View for StreamCache {
    type V = Map<Seq<char>, u64>;

    closed spec fn view(&self) -> Map<Seq<char>, u64> {
        self.results@
    }
}

impl StreamCache {
    /// Creates an empty cache. No key has a value until events from the
    /// sources are applied.
    pub fn new() -> (result: Self)
        ensures
            result@ == Map::<Seq<char>, u64>::empty(),
    {
        StreamCache { results: StringHashMap::new() }
    }

    /// Point lookup of the latest applied value for `key`, or `None` if
    /// neither source has produced the key. Never fails.
    pub fn get(&self, key: &str) -> (result: Option<u64>)
        ensures
            (match result {
                Some(v) => self@.contains_key(key@) && v == self@[key@],
                None => !self@.contains_key(key@),
            }),
    {
        match self.results.get(key) {
            Some(v) => Some(*v),
            None => None,
        }
    }

    /// Writes one entry under the given policy: `InsertIfAbsent` leaves an
    /// existing entry untouched, `Overwrite` always replaces.
    pub fn apply(&mut self, key: String, value: u64, mode: ApplyMode)
        ensures
            mode is InsertIfAbsent ==> final(self)@ == insert_if_absent_spec(
                old(self)@,
                key@,
                value,
            ),
            mode is Overwrite ==> final(self)@ == old(self)@.insert(key@, value),
    {
        match mode {
            ApplyMode::InsertIfAbsent => {
                if !self.results.contains_key(key.as_str()) {
                    self.results.insert(key, value);
                }
            },
            ApplyMode::Overwrite => {
                self.results.insert(key, value);
            },
        }
    }

    /// Merges a successful bulk-fetch snapshot: every entry is applied
    /// with insert-if-absent semantics, in sequence order, so a key
    /// already populated by a faster-arriving subscription update is left
    /// untouched.
    pub fn apply_snapshot(&mut self, entries: &Vec<(String, u64)>)
        ensures
            final(self)@ == apply_snapshot_spec(old(self)@, entries.deep_view()),
    {
        let ghost m0 = self@;
        let ghost all = entries.deep_view();
        let mut i: usize = 0;
        while i < entries.len()
            invariant
                0 <= i <= entries.len(),
                all == entries.deep_view(),
                all.len() == entries.len(),
                self@ == apply_snapshot_spec(m0, all.take(i as int)),
            decreases entries.len() - i,
        {
            let key = entries[i].0.clone();
            let value = entries[i].1;
            self.apply(key, value, ApplyMode::InsertIfAbsent);
            proof {
                assert(all.take(i + 1).drop_last() =~= all.take(i as int));
                assert(all.take(i + 1).last() == all[i as int]);
            }
            i += 1;
        }
        proof {
            assert(all.take(entries.len() as int) =~= all);
        }
    }

    /// Applies one reconciler event according to the merge policy: a
    /// snapshot is merged with insert-if-absent semantics, a subscription
    /// update overwrites, and a failure of either source is skipped.
    pub fn apply_event(&mut self, event: SourceEvent)
        ensures
            final(self)@ == apply_event_spec(old(self)@, event@),
    {
        match event {
            SourceEvent::Snapshot(entries) => {
                self.apply_snapshot(&entries);
            },
            SourceEvent::FetchFailed => {},
            SourceEvent::Update(key, value) => {
                self.apply(key, value, ApplyMode::Overwrite);
            },
            SourceEvent::UpdateFailed => {},
        }
    }

    /// Applies a finite sequence of reconciler events in order. This is
    /// the synchronous core of the background reconciliation loop: the
    /// asynchronous driver observes outcomes from the two sources and
    /// hands each one here as it arrives.
    pub fn apply_events(&mut self, events: Vec<SourceEvent>)
        ensures
            final(self)@ == run_spec(old(self)@, events.deep_view()),
    {
        let ghost m0 = self@;
        let ghost all = events.deep_view();
        let mut remaining = events;
        let total = remaining.len();
        let mut i: usize = 0;
        while remaining.len() > 0
            invariant
                i + remaining@.len() == total,
                all.len() == i + remaining.deep_view().len(),
                all == all.take(i as int) + remaining.deep_view(),
                self@ == run_spec(m0, all.take(i as int)),
            decreases remaining.len(),
        {
            let event = remaining.remove(0);
            proof {
                assert(event.deep_view() == all[i as int]);
                assert(all.take(i + 1).drop_last() =~= all.take(i as int));
                assert(all.take(i + 1).last() == all[i as int]);
            }
            self.apply_event(event);
            i += 1;
            proof {
                assert(all == all.take(i as int) + remaining.deep_view());
            }
        }
        proof {
            assert(all.take(i as int) =~= all);
        }
    }
}

} // verus!
