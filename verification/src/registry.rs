//! The registry of pending loads and its reconciliation pass.
//!
//! The registry is modelled as a sequence of entries, oldest first. A
//! reconciliation pass takes one observed status per entry, records it, and
//! splits the entries in two: those still under way stay, those that ended
//! leave and are handed back, each exactly once.

use vstd::prelude::*;

use crate::status::LoadStatus;

verus! {

/// The token by which one submitted load is known.
#[derive(Clone, Copy, Debug, PartialEq, Eq, Hash, Structural)]
pub struct Handle {
    pub id: u64,
}

/// One load that was submitted, with the status last observed of it.
#[derive(Clone, Copy, Debug, PartialEq, Eq, Structural)]
pub struct PendingLoad {
    pub handle: Handle,
    pub status: LoadStatus,
}

/// Whether one of `entries` belongs to `handle`.
pub open spec fn tracks(entries: Seq<PendingLoad>, handle: Handle) -> bool {
    exists|i: int| 0 <= i < entries.len() && (#[trigger] entries[i]).handle == handle
}

/// No handle belongs to two entries.
pub open spec fn distinct_handles(entries: Seq<PendingLoad>) -> bool {
    forall|i: int, j: int|
        0 <= i < j < entries.len() ==> (#[trigger] entries[i]).handle != (#[trigger] entries[j]).handle
}

/// No entry holds a terminal status.
pub open spec fn all_pending(entries: Seq<PendingLoad>) -> bool {
    forall|i: int| 0 <= i < entries.len() ==> !(#[trigger] entries[i]).status.terminal()
}

/// What holds of a registry between any two calls.
pub open spec fn well_formed(entries: Seq<PendingLoad>) -> bool {
    distinct_handles(entries) && all_pending(entries)
}

/// The entry of a load that has just been submitted.
pub open spec fn fresh_entry(handle: Handle) -> PendingLoad {
    PendingLoad { handle, status: LoadStatus::NotLoaded }
}

/// The registry after `handle` was submitted for tracking: a handle that is
/// tracked already changes nothing, any other enters at the end.
pub open spec fn after_track(entries: Seq<PendingLoad>, handle: Handle) -> Seq<PendingLoad> {
    if tracks(entries, handle) {
        entries
    } else {
        entries.push(fresh_entry(handle))
    }
}

/// The test that keeps an entry in the registry.
pub open spec fn is_pending() -> spec_fn(PendingLoad) -> bool {
    |e: PendingLoad| !e.status.terminal()
}

/// The test that retires an entry.
pub open spec fn is_resolved() -> spec_fn(PendingLoad) -> bool {
    |e: PendingLoad| e.status.terminal()
}

/// The entries with the observed statuses written into them, position by
/// position. An entry for which no status was given keeps the one it had.
pub open spec fn observed_as(entries: Seq<PendingLoad>, statuses: Seq<LoadStatus>) -> Seq<PendingLoad> {
    Seq::new(
        entries.len(),
        |i: int|
            PendingLoad {
                handle: entries[i].handle,
                status: if i < statuses.len() {
                    statuses[i]
                } else {
                    entries[i].status
                },
            },
    )
}

/// The registry after a pass: the entries observed as not yet ended, in order.
pub open spec fn still_pending(entries: Seq<PendingLoad>, statuses: Seq<LoadStatus>) -> Seq<PendingLoad> {
    observed_as(entries, statuses).filter(is_pending())
}

/// What a pass hands back: the entries observed as ended, in order.
pub open spec fn resolved(entries: Seq<PendingLoad>, statuses: Seq<LoadStatus>) -> Seq<PendingLoad> {
    observed_as(entries, statuses).filter(is_resolved())
}

/// Filtering a sequence that grew by one element at its end.
pub proof fn lemma_filter_push<A>(s: Seq<A>, x: A, pred: spec_fn(A) -> bool)
    ensures
        s.push(x).filter(pred) == if pred(x) {
            s.filter(pred).push(x)
        } else {
            s.filter(pred)
        },
{
    reveal(Seq::filter);
    assert(s.push(x).drop_last() =~= s);
}

/// The loads that were submitted and have not been observed as ended.
pub struct PendingLoadRegistry {
    entries: Vec<PendingLoad>,
}

impl View for PendingLoadRegistry {
    type V = Seq<PendingLoad>;

    closed spec fn view(&self) -> Seq<PendingLoad> {
        self.entries@
    }
}

impl PendingLoadRegistry {
    #[verifier::type_invariant]
    spec fn inv(&self) -> bool {
        well_formed(self.entries@)
    }

    /// A registry without entries.
    pub fn new() -> (registry: Self)
        ensures
            registry@ == Seq::<PendingLoad>::empty(),
            well_formed(registry@),
    {
        PendingLoadRegistry { entries: Vec::new() }
    }

    /// The number of pending loads.
    pub fn len(&self) -> (n: usize)
        ensures
            n == self@.len(),
    {
        self.entries.len()
    }

    /// Whether no load is pending.
    pub fn is_empty(&self) -> (b: bool)
        ensures
            b == (self@.len() == 0),
    {
        self.entries.len() == 0
    }

    /// The entries, oldest first.
    pub fn entries(&self) -> (list: Vec<PendingLoad>)
        ensures
            list@ == self@,
            well_formed(list@),
    {
        proof {
            use_type_invariant(self);
        }
        self.entries.clone()
    }

    /// Whether `handle` is tracked.
    pub fn contains(&self, handle: Handle) -> (b: bool)
        ensures
            b == tracks(self@, handle),
    {
        let mut i: usize = 0;
        while i < self.entries.len()
            invariant
                i <= self.entries@.len(),
                forall|k: int| 0 <= k < i ==> (#[trigger] self.entries@[k]).handle != handle,
            decreases self.entries@.len() - i,
        {
            if self.entries[i].handle.id == handle.id {
                return true;
            }
            i += 1;
        }
        false
    }

    /// The status last observed of `handle`, where it is tracked.
    pub fn status_of(&self, handle: Handle) -> (status: Option<LoadStatus>)
        ensures
            status is Some <==> tracks(self@, handle),
            status matches Some(s) ==> self@.contains(PendingLoad { handle, status: s }),
    {
        let mut i: usize = 0;
        while i < self.entries.len()
            invariant
                i <= self.entries@.len(),
                forall|k: int| 0 <= k < i ==> (#[trigger] self.entries@[k]).handle != handle,
            decreases self.entries@.len() - i,
        {
            if self.entries[i].handle.id == handle.id {
                assert(self.entries@[i as int] == PendingLoad {
                    handle,
                    status: self.entries@[i as int].status,
                });
                return Some(self.entries[i].status);
            }
            i += 1;
        }
        None
    }

    /// Starts tracking `handle`, with the status `NotLoaded`. A handle that is
    /// tracked already is not added again.
    pub fn track(&mut self, handle: Handle) -> (added: bool)
        ensures
            added == !tracks(old(self)@, handle),
            final(self)@ == after_track(old(self)@, handle),
            well_formed(final(self)@),
    {
        proof {
            use_type_invariant(&*self);
        }
        if self.contains(handle) {
            return false;
        }
        let mut entries: Vec<PendingLoad> = Vec::new();
        std::mem::swap(&mut entries, &mut self.entries);
        entries.push(PendingLoad { handle, status: LoadStatus::NotLoaded });
        self.entries = entries;
        true
    }

    /// One reconciliation pass. `statuses` holds what was observed of each
    /// entry, in the order of the entries. The observed statuses are recorded;
    /// entries that ended leave the registry and are returned, in order; the
    /// others stay, in order.
    pub fn reconcile_observed(&mut self, statuses: &Vec<LoadStatus>) -> (ended: Vec<PendingLoad>)
        ensures
            final(self)@ == still_pending(old(self)@, statuses@),
            ended@ == resolved(old(self)@, statuses@),
            well_formed(final(self)@),
    {
        proof {
            use_type_invariant(&*self);
        }
        let ghost before = self.entries@;
        let ghost seen = observed_as(before, statuses@);
        let mut kept: Vec<PendingLoad> = Vec::new();
        let mut ended: Vec<PendingLoad> = Vec::new();
        let n = self.entries.len();
        let mut i: usize = 0;
        proof {
            reveal(Seq::filter);
            assert(seen.take(0) =~= Seq::<PendingLoad>::empty());
        }
        while i < n
            invariant
                i <= n,
                n == before.len(),
                self.entries@ == before,
                seen == observed_as(before, statuses@),
                distinct_handles(before),
                kept@ == seen.take(i as int).filter(is_pending()),
                ended@ == seen.take(i as int).filter(is_resolved()),
                well_formed(kept@),
                forall|k: int|
                    0 <= k < kept@.len() ==> exists|j: int|
                        0 <= j < i && (#[trigger] before[j]).handle == (#[trigger] kept@[k]).handle,
            decreases n - i,
        {
            let entry = self.entries[i];
            let status = if i < statuses.len() {
                statuses[i]
            } else {
                entry.status
            };
            let observed = PendingLoad { handle: entry.handle, status };
            proof {
                assert(observed == seen[i as int]);
                assert(seen.take(i + 1) =~= seen.take(i as int).push(observed));
                lemma_filter_push(seen.take(i as int), observed, is_pending());
                lemma_filter_push(seen.take(i as int), observed, is_resolved());
            }
            if status.is_terminal() {
                ended.push(observed);
            } else {
                kept.push(observed);
            }
            i += 1;
        }
        proof {
            assert(seen.take(n as int) =~= seen);
        }
        self.entries = kept;
        ended
    }
}

} // verus!
