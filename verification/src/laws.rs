//! What holds of reconciliation passes, proved over the model of the
//! registry: a sequence of entries that a pass splits in two.

use vstd::prelude::*;

use crate::registry::{
    after_track, all_pending, distinct_handles, fresh_entry, is_pending, is_resolved,
    lemma_filter_push, observed_as, resolved, still_pending, tracks, well_formed, Handle,
    PendingLoad,
};
use crate::status::LoadStatus;

verus! {

/// Every entry holds a terminal status.
pub open spec fn all_resolved(entries: Seq<PendingLoad>) -> bool {
    forall|i: int| 0 <= i < entries.len() ==> (#[trigger] entries[i]).status.terminal()
}

/// No handle belongs to an entry of `a` and to an entry of `b`.
pub open spec fn disjoint_handles(a: Seq<PendingLoad>, b: Seq<PendingLoad>) -> bool {
    forall|h: Handle| !(tracks(a, h) && tracks(b, h))
}

/// The statuses that the entries hold, position by position.
pub open spec fn statuses_of(entries: Seq<PendingLoad>) -> Seq<LoadStatus> {
    Seq::new(entries.len(), |i: int| entries[i].status)
}

/// A sequence that grew by one entry tracks the handles it tracked, and the
/// handle of the new entry.
pub proof fn lemma_tracks_push(s: Seq<PendingLoad>, x: PendingLoad, h: Handle)
    ensures
        tracks(s.push(x), h) <==> (tracks(s, h) || x.handle == h),
{
    let t = s.push(x);
    if tracks(s, h) {
        let i = choose|i: int| 0 <= i < s.len() && (#[trigger] s[i]).handle == h;
        assert(t[i].handle == h);
    }
    if x.handle == h {
        assert(t[s.len() as int].handle == h);
    }
    if tracks(t, h) {
        let i = choose|i: int| 0 <= i < t.len() && (#[trigger] t[i]).handle == h;
        if i < s.len() {
            assert(s[i].handle == h);
        }
    }
}

/// Two sequences laid end to end track what either of them tracks.
pub proof fn lemma_tracks_concat(a: Seq<PendingLoad>, b: Seq<PendingLoad>, h: Handle)
    ensures
        tracks(a + b, h) <==> (tracks(a, h) || tracks(b, h)),
{
    let t = a + b;
    if tracks(a, h) {
        let i = choose|i: int| 0 <= i < a.len() && (#[trigger] a[i]).handle == h;
        assert(t[i].handle == h);
    }
    if tracks(b, h) {
        let i = choose|i: int| 0 <= i < b.len() && (#[trigger] b[i]).handle == h;
        assert(t[a.len() + i].handle == h);
    }
    if tracks(t, h) {
        let i = choose|i: int| 0 <= i < t.len() && (#[trigger] t[i]).handle == h;
        if i < a.len() {
            assert(a[i].handle == h);
        } else {
            assert(b[i - a.len()].handle == h);
        }
    }
}

/// A sequence with one more entry has distinct handles exactly when it had
/// them before and did not track the handle of the new entry.
pub proof fn lemma_distinct_push(s: Seq<PendingLoad>, x: PendingLoad)
    ensures
        distinct_handles(s.push(x)) <==> (distinct_handles(s) && !tracks(s, x.handle)),
{
    let t = s.push(x);
    if distinct_handles(t) {
        assert forall|i: int, j: int| 0 <= i < j < s.len() implies (#[trigger] s[i]).handle != (
        #[trigger] s[j]).handle by {
            assert(t[i].handle != t[j].handle);
        }
        if tracks(s, x.handle) {
            let i = choose|i: int| 0 <= i < s.len() && (#[trigger] s[i]).handle == x.handle;
            assert(t[i].handle != t[s.len() as int].handle);
        }
    }
    if distinct_handles(s) && !tracks(s, x.handle) {
        assert forall|i: int, j: int| 0 <= i < j < t.len() implies (#[trigger] t[i]).handle != (
        #[trigger] t[j]).handle by {
            if j < s.len() {
                assert(s[i].handle != s[j].handle);
            } else {
                assert(s[i].handle != x.handle);
            }
        }
    }
}

/// Two sequences with distinct handles and no handle in common give, laid end
/// to end, a sequence with distinct handles.
pub proof fn lemma_distinct_concat(a: Seq<PendingLoad>, b: Seq<PendingLoad>)
    requires
        distinct_handles(a),
        distinct_handles(b),
        disjoint_handles(a, b),
    ensures
        distinct_handles(a + b),
{
    let t = a + b;
    assert forall|i: int, j: int| 0 <= i < j < t.len() implies (#[trigger] t[i]).handle != (
    #[trigger] t[j]).handle by {
        if j < a.len() {
            assert(a[i].handle != a[j].handle);
        } else if i >= a.len() {
            assert(b[i - a.len()].handle != b[j - a.len()].handle);
        } else {
            let h = a[i].handle;
            assert(tracks(a, h));
            if b[j - a.len()].handle == h {
                assert(tracks(b, h));
            }
        }
    }
}

/// Writing observed statuses into the entries changes no handle.
pub proof fn lemma_observed_handles(entries: Seq<PendingLoad>, statuses: Seq<LoadStatus>)
    ensures
        observed_as(entries, statuses).len() == entries.len(),
        forall|i: int|
            0 <= i < entries.len() ==> (#[trigger] observed_as(entries, statuses)[i]).handle
                == entries[i].handle,
        forall|h: Handle| tracks(observed_as(entries, statuses), h) <==> tracks(entries, h),
        distinct_handles(entries) ==> distinct_handles(observed_as(entries, statuses)),
{
    let seen = observed_as(entries, statuses);
    assert forall|h: Handle| tracks(seen, h) <==> tracks(entries, h) by {
        if tracks(seen, h) {
            let i = choose|i: int| 0 <= i < seen.len() && (#[trigger] seen[i]).handle == h;
            assert(entries[i].handle == h);
        }
        if tracks(entries, h) {
            let i = choose|i: int| 0 <= i < entries.len() && (#[trigger] entries[i]).handle == h;
            assert(seen[i].handle == h);
        }
    }
    if distinct_handles(entries) {
        assert forall|i: int, j: int| 0 <= i < j < seen.len() implies (#[trigger] seen[i]).handle
            != (#[trigger] seen[j]).handle by {
            assert(entries[i].handle != entries[j].handle);
        }
    }
}

/// Splitting a sequence by the status of its entries loses no entry, invents
/// none, and puts none on both sides.
pub proof fn lemma_split(s: Seq<PendingLoad>)
    ensures
        s.filter(is_pending()).len() + s.filter(is_resolved()).len() == s.len(),
        all_pending(s.filter(is_pending())),
        all_resolved(s.filter(is_resolved())),
        forall|h: Handle|
            tracks(s, h) <==> (tracks(s.filter(is_pending()), h) || tracks(
                s.filter(is_resolved()),
                h,
            )),
        distinct_handles(s) ==> distinct_handles(s.filter(is_pending())),
        distinct_handles(s) ==> distinct_handles(s.filter(is_resolved())),
        distinct_handles(s) ==> disjoint_handles(s.filter(is_pending()), s.filter(is_resolved())),
    decreases s.len(),
{
    let kept = s.filter(is_pending());
    let ended = s.filter(is_resolved());
    if s.len() == 0 {
        reveal(Seq::filter);
        assert forall|h: Handle| tracks(s, h) <==> (tracks(kept, h) || tracks(ended, h)) by {}
    } else {
        let r = s.drop_last();
        let x = s.last();
        let r_kept = r.filter(is_pending());
        let r_ended = r.filter(is_resolved());
        assert(s =~= r.push(x));
        lemma_split(r);
        lemma_filter_push(r, x, is_pending());
        lemma_filter_push(r, x, is_resolved());
        lemma_distinct_push(r, x);
        lemma_distinct_push(r_kept, x);
        lemma_distinct_push(r_ended, x);
        assert forall|h: Handle| tracks(s, h) <==> (tracks(kept, h) || tracks(ended, h)) by {
            lemma_tracks_push(r, x, h);
            lemma_tracks_push(r_kept, x, h);
            lemma_tracks_push(r_ended, x, h);
        }
        if distinct_handles(s) {
            assert forall|h: Handle| !(tracks(kept, h) && tracks(ended, h)) by {
                lemma_tracks_push(r_kept, x, h);
                lemma_tracks_push(r_ended, x, h);
            }
        }
    }
}

/// A sequence whose entries all pass the test is its own filter.
pub proof fn lemma_filter_all(s: Seq<PendingLoad>, pred: spec_fn(PendingLoad) -> bool)
    requires
        forall|i: int| 0 <= i < s.len() ==> pred(#[trigger] s[i]),
    ensures
        s.filter(pred) == s,
    decreases s.len(),
{
    if s.len() == 0 {
        reveal(Seq::filter);
    } else {
        let r = s.drop_last();
        assert(s =~= r.push(s.last()));
        assert forall|i: int| 0 <= i < r.len() implies pred(#[trigger] r[i]) by {
            assert(pred(s[i]));
        }
        lemma_filter_all(r, pred);
        lemma_filter_push(r, s.last(), pred);
    }
}

/// A sequence of which no entry passes the test has an empty filter.
pub proof fn lemma_filter_none(s: Seq<PendingLoad>, pred: spec_fn(PendingLoad) -> bool)
    requires
        forall|i: int| 0 <= i < s.len() ==> !pred(#[trigger] s[i]),
    ensures
        s.filter(pred) == Seq::<PendingLoad>::empty(),
    decreases s.len(),
{
    if s.len() == 0 {
        reveal(Seq::filter);
        assert(s =~= Seq::<PendingLoad>::empty());
    } else {
        let r = s.drop_last();
        assert(s =~= r.push(s.last()));
        assert forall|i: int| 0 <= i < r.len() implies !pred(#[trigger] r[i]) by {
            assert(!pred(s[i]));
        }
        lemma_filter_none(r, pred);
        lemma_filter_push(r, s.last(), pred);
    }
}

/// One pass over a registry with distinct handles: every load is afterwards
/// either still in the registry or among those handed back, never both and
/// never twice; those that stay are not ended, those handed back are.
pub proof fn lemma_pass_partitions(entries: Seq<PendingLoad>, statuses: Seq<LoadStatus>)
    requires
        distinct_handles(entries),
    ensures
        well_formed(still_pending(entries, statuses)),
        distinct_handles(resolved(entries, statuses)),
        all_resolved(resolved(entries, statuses)),
        disjoint_handles(still_pending(entries, statuses), resolved(entries, statuses)),
        still_pending(entries, statuses).len() + resolved(entries, statuses).len()
            == entries.len(),
        forall|h: Handle|
            tracks(entries, h) <==> (tracks(still_pending(entries, statuses), h) || tracks(
                resolved(entries, statuses),
                h,
            )),
{
    lemma_observed_handles(entries, statuses);
    lemma_split(observed_as(entries, statuses));
}

/// A load that is observed as not yet ended is not removed and not handed
/// back: it stays in the registry, with the status observed.
pub proof fn lemma_unfinished_load_stays(
    entries: Seq<PendingLoad>,
    statuses: Seq<LoadStatus>,
    i: int,
)
    requires
        0 <= i < entries.len(),
        !observed_as(entries, statuses)[i].status.terminal(),
    ensures
        still_pending(entries, statuses).contains(observed_as(entries, statuses)[i]),
        tracks(still_pending(entries, statuses), entries[i].handle),
        !resolved(entries, statuses).contains(observed_as(entries, statuses)[i]),
        distinct_handles(entries) ==> !tracks(resolved(entries, statuses), entries[i].handle),
{
    let seen = observed_as(entries, statuses);
    let kept = still_pending(entries, statuses);
    let ended = resolved(entries, statuses);
    assert(is_pending()(seen[i]));
    seen.lemma_filter_contains(is_pending(), i);
    let k = choose|k: int| 0 <= k < kept.len() && kept[k] == seen[i];
    assert(kept[k].handle == entries[i].handle);
    if ended.contains(seen[i]) {
        let j = choose|j: int| 0 <= j < ended.len() && ended[j] == seen[i];
        seen.lemma_filter_pred(is_resolved(), j);
    }
    if distinct_handles(entries) {
        lemma_pass_partitions(entries, statuses);
    }
}

/// A second pass that observes what the first one recorded changes nothing
/// and hands nothing back.
pub proof fn lemma_second_pass_changes_nothing(entries: Seq<PendingLoad>, statuses: Seq<LoadStatus>)
    ensures
        still_pending(still_pending(entries, statuses), statuses_of(still_pending(entries, statuses)))
            == still_pending(entries, statuses),
        resolved(still_pending(entries, statuses), statuses_of(still_pending(entries, statuses)))
            == Seq::<PendingLoad>::empty(),
{
    let kept = still_pending(entries, statuses);
    lemma_split(observed_as(entries, statuses));
    lemma_unchanged_statuses(kept);
}

/// A pass over a registry whose entries are all pending, in which every load
/// is observed with the status it holds, changes nothing and hands nothing
/// back.
pub proof fn lemma_unchanged_statuses(entries: Seq<PendingLoad>)
    requires
        all_pending(entries),
    ensures
        still_pending(entries, statuses_of(entries)) == entries,
        resolved(entries, statuses_of(entries)) == Seq::<PendingLoad>::empty(),
{
    assert(observed_as(entries, statuses_of(entries)) =~= entries);
    lemma_filter_all(entries, is_pending());
    lemma_filter_none(entries, is_resolved());
}

/// One step of a viewer's life: a load is submitted, or a reconciliation
/// pass runs with the statuses observed in it.
pub enum Step {
    Submit(Handle),
    Tick(Seq<LoadStatus>),
}

/// The registry, and all that the passes so far have handed back, oldest
/// first.
pub struct Progress {
    pub registry: Seq<PendingLoad>,
    pub reported: Seq<PendingLoad>,
}

/// The effect of one step.
pub open spec fn after_step(before: Progress, step: Step) -> Progress {
    match step {
        Step::Submit(handle) => Progress {
            registry: after_track(before.registry, handle),
            reported: before.reported,
        },
        Step::Tick(statuses) => Progress {
            registry: still_pending(before.registry, statuses),
            reported: before.reported + resolved(before.registry, statuses),
        },
    }
}

/// The effect of a sequence of steps on a registry, with nothing reported at
/// the start.
pub open spec fn after_steps(start: Seq<PendingLoad>, steps: Seq<Step>) -> Progress
    decreases steps.len(),
{
    if steps.len() == 0 {
        Progress { registry: start, reported: Seq::<PendingLoad>::empty() }
    } else {
        after_step(after_steps(start, steps.drop_last()), steps.last())
    }
}

/// Whether one of the steps submits `handle`.
pub open spec fn submitted_in(steps: Seq<Step>, handle: Handle) -> bool {
    exists|i: int| 0 <= i < steps.len() && #[trigger] steps[i] == Step::Submit(handle)
}

/// Every submission brings a handle that was not used before: it is not in
/// the registry at the start, and no two steps submit the same one.
pub open spec fn submissions_fresh(start: Seq<PendingLoad>, steps: Seq<Step>) -> bool {
    &&& forall|h: Handle| submitted_in(steps, h) ==> !tracks(start, h)
    &&& forall|i: int, j: int|
        0 <= i < j < steps.len() && (#[trigger] steps[i]) is Submit && (#[trigger] steps[j]) is Submit
            ==> steps[i] != steps[j]
}

/// Whatever the order in which loads are submitted and end, over any number
/// of passes: every load is at any time either in the registry or reported,
/// never both; no load is reported twice; what is reported has ended and what
/// is in the registry has not. So once the registry is empty, every load has
/// been reported exactly once.
pub proof fn lemma_every_load_reported_once(start: Seq<PendingLoad>, steps: Seq<Step>)
    requires
        well_formed(start),
        submissions_fresh(start, steps),
    ensures
        well_formed(after_steps(start, steps).registry),
        distinct_handles(after_steps(start, steps).reported),
        all_resolved(after_steps(start, steps).reported),
        disjoint_handles(after_steps(start, steps).registry, after_steps(start, steps).reported),
        forall|h: Handle|
            (tracks(start, h) || submitted_in(steps, h)) <==> (tracks(
                after_steps(start, steps).registry,
                h,
            ) || tracks(after_steps(start, steps).reported, h)),
        after_steps(start, steps).registry.len() == 0 ==> forall|h: Handle|
            (tracks(start, h) || submitted_in(steps, h)) ==> tracks(
                after_steps(start, steps).reported,
                h,
            ),
    decreases steps.len(),
{
    let end = after_steps(start, steps);
    if steps.len() == 0 {
        assert forall|h: Handle|
            (tracks(start, h) || submitted_in(steps, h)) <==> (tracks(end.registry, h) || tracks(
                end.reported,
                h,
            )) by {}
    } else {
        let earlier = steps.drop_last();
        let prev = after_steps(start, earlier);
        let step = steps.last();
        assert forall|h: Handle| submitted_in(earlier, h) implies submitted_in(steps, h) by {
            let i = choose|i: int| 0 <= i < earlier.len() && #[trigger] earlier[i] == Step::Submit(h);
            assert(steps[i] == Step::Submit(h));
        }
        assert(submissions_fresh(start, earlier)) by {
            assert forall|i: int, j: int|
                0 <= i < j < earlier.len() && (#[trigger] earlier[i]) is Submit && (
                #[trigger] earlier[j]) is Submit implies earlier[i] != earlier[j] by {
                assert(steps[i] == earlier[i]);
                assert(steps[j] == earlier[j]);
            }
        }
        lemma_every_load_reported_once(start, earlier);
        assert forall|h: Handle| submitted_in(steps, h) <==> (submitted_in(earlier, h) || step
            == Step::Submit(h)) by {
            if submitted_in(steps, h) {
                let i = choose|i: int| 0 <= i < steps.len() && #[trigger] steps[i] == Step::Submit(h);
                if i < earlier.len() {
                    assert(earlier[i] == Step::Submit(h));
                }
            }
            if step == Step::Submit(h) {
                assert(steps[steps.len() - 1] == Step::Submit(h));
            }
        }
        match step {
            Step::Submit(handle) => {
                assert(submitted_in(steps, handle));
                assert(!submitted_in(earlier, handle)) by {
                    if submitted_in(earlier, handle) {
                        let i = choose|i: int|
                            0 <= i < earlier.len() && #[trigger] earlier[i] == Step::Submit(handle);
                        assert(steps[i] == Step::Submit(handle));
                        assert(steps[steps.len() - 1] == Step::Submit(handle));
                    }
                }
                assert(!tracks(prev.registry, handle) && !tracks(prev.reported, handle));
                lemma_distinct_push(prev.registry, fresh_entry(handle));
                assert forall|h: Handle|
                    (tracks(start, h) || submitted_in(steps, h)) <==> (tracks(end.registry, h)
                        || tracks(end.reported, h)) by {
                    lemma_tracks_push(prev.registry, fresh_entry(handle), h);
                }
                assert forall|h: Handle| !(tracks(end.registry, h) && tracks(end.reported, h)) by {
                    lemma_tracks_push(prev.registry, fresh_entry(handle), h);
                }
            },
            Step::Tick(statuses) => {
                let kept = still_pending(prev.registry, statuses);
                let ended = resolved(prev.registry, statuses);
                lemma_pass_partitions(prev.registry, statuses);
                assert(disjoint_handles(prev.reported, ended));
                lemma_distinct_concat(prev.reported, ended);
                assert forall|h: Handle|
                    (tracks(start, h) || submitted_in(steps, h)) <==> (tracks(end.registry, h)
                        || tracks(end.reported, h)) by {
                    lemma_tracks_concat(prev.reported, ended, h);
                }
                assert forall|h: Handle| !(tracks(end.registry, h) && tracks(end.reported, h)) by {
                    lemma_tracks_concat(prev.reported, ended, h);
                }
            },
        }
    }
    if end.registry.len() == 0 {
        assert forall|h: Handle| !tracks(end.registry, h) by {}
    }
}

} // verus!
