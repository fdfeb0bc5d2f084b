//! The load tracker: a registry of pending loads bound to the asset server
//! that carries them out.
//!
//! The tracker numbers the loads it submits, and the number is the load's
//! handle. Of every load it submitted it keeps what it handed to the server
//! and the engine's own handle, so a load stays alive for as long as the
//! tracker does.

use bevy::asset::{AssetServer, HandleUntyped};
use vstd::prelude::*;

use crate::engine::{server_handle, server_load, server_path, server_state};
use crate::laws::lemma_pass_partitions;
use crate::registry::{
    fresh_entry, resolved, still_pending, tracks, well_formed, Handle, PendingLoad,
    PendingLoadRegistry,
};
use crate::report::Resolution;
use crate::request::{scene_label_spec, DispatchAction, LoadRequest, TargetKind};
use crate::status::LoadStatus;

verus! {

/// What became of one request.
#[derive(Clone, Copy, Debug, PartialEq, Eq, Structural)]
pub enum DispatchOutcome {
    /// The file was submitted to the scene loader and is tracked under the
    /// handle.
    Submitted(Handle),
    /// The file is an image: nothing handles it yet, and nothing was done.
    Unimplemented,
    /// The file is of no known kind: nothing was done.
    Ignored,
}

/// Every entry belongs to one of the first `issued` loads.
pub open spec fn all_issued(entries: Seq<PendingLoad>, issued: nat) -> bool {
    forall|i: int| 0 <= i < entries.len() ==> (#[trigger] entries[i]).handle.id < issued
}

/// The entries that the resolutions speak of.
pub open spec fn entries_of(report: Seq<Resolution>) -> Seq<PendingLoad> {
    Seq::new(report.len(), |i: int| report[i].entry())
}

/// What was handed to the asset server for one load: the path of the file
/// and the label of the sub-scene in it.
pub struct Submission {
    pub path: Seq<char>,
    pub label: Seq<char>,
}

/// The submission that a scene request stands for.
pub open spec fn submission_of(request: &LoadRequest) -> Submission {
    Submission { path: request.path_spec(), label: scene_label_spec(request.sub_scene_spec()) }
}

struct IssuedLoad {
    path: String,
    label: String,
    engine: HandleUntyped,
}

/// A registry of pending loads together with the asset server that loads
/// them.
pub struct LoadTracker {
    server: AssetServer,
    issued: Vec<IssuedLoad>,
    pending: PendingLoadRegistry,
}

impl LoadTracker {
    #[verifier::type_invariant]
    spec fn inv(&self) -> bool {
        forall|i: int|
            0 <= i < self.pending@.len() ==> (#[trigger] self.pending@[i]).handle.id
                < self.issued@.len()
    }

    /// The pending loads, oldest first.
    pub closed spec fn pending_spec(&self) -> Seq<PendingLoad> {
        self.pending@
    }

    /// What the tracker has submitted to the asset server, in order. The
    /// position of a submission is the id of its handle.
    pub closed spec fn submissions(&self) -> Seq<Submission> {
        Seq::new(
            self.issued@.len(),
            |i: int| Submission { path: self.issued@[i].path@, label: self.issued@[i].label@ },
        )
    }

    /// How many loads the tracker has submitted. The next load gets this
    /// number as its handle.
    pub open spec fn issued_spec(&self) -> nat {
        self.submissions().len()
    }

    /// A tracker bound to `server`, with nothing submitted and nothing pending.
    pub fn new(server: AssetServer) -> (tracker: LoadTracker)
        ensures
            tracker.server_spec() == server,
            tracker.pending_spec() == Seq::<PendingLoad>::empty(),
            tracker.submissions() == Seq::<Submission>::empty(),
    {
        LoadTracker { server, issued: Vec::new(), pending: PendingLoadRegistry::new() }
    }

    /// The asset server that the tracker is bound to: the one that its loads
    /// are submitted to and that is asked for their statuses. It is the
    /// server the tracker was made with, for as long as the tracker lives.
    pub closed spec fn server_spec(&self) -> AssetServer {
        self.server
    }

    /// The pending loads. Each of them was submitted by this tracker.
    pub fn pending(&self) -> (registry: &PendingLoadRegistry)
        ensures
            registry@ == self.pending_spec(),
            all_issued(self.pending_spec(), self.issued_spec()),
    {
        proof {
            use_type_invariant(self);
        }
        &self.pending
    }

    /// How many loads the tracker has submitted.
    pub fn issued(&self) -> (n: usize)
        ensures
            n == self.issued_spec(),
    {
        self.issued.len()
    }

    /// The path that was handed to the asset server for the load `handle`.
    /// `None` where the tracker never issued `handle`.
    pub fn submitted_path(&self, handle: Handle) -> (path: Option<&str>)
        ensures
            path is Some <==> handle.id < self.issued_spec(),
            path matches Some(p) ==> p@ == self.submissions()[handle.id as int].path,
    {
        if handle.id < self.issued.len() as u64 {
            Some(self.issued[handle.id as usize].path.as_str())
        } else {
            None
        }
    }

    /// The sub-scene label that was handed to the asset server for the load
    /// `handle`. `None` where the tracker never issued `handle`.
    pub fn submitted_label(&self, handle: Handle) -> (label: Option<&str>)
        ensures
            label is Some <==> handle.id < self.issued_spec(),
            label matches Some(l) ==> l@ == self.submissions()[handle.id as int].label,
    {
        if handle.id < self.issued.len() as u64 {
            Some(self.issued[handle.id as usize].label.as_str())
        } else {
            None
        }
    }

    /// A strong engine handle of the load `handle`, for the caller to
    /// instantiate the scene with. `None` where the tracker never issued
    /// `handle`.
    pub fn scene_handle(&self, handle: Handle) -> (engine: Option<HandleUntyped>)
        ensures
            engine is Some <==> handle.id < self.issued_spec(),
    {
        if handle.id < self.issued.len() as u64 {
            Some(server_handle(&self.server, &self.issued[handle.id as usize].engine))
        } else {
            None
        }
    }

    /// Load dispatch for one request. A scene is submitted to the asset
    /// server, with its path and the label of its sub-scene, and enters the
    /// registry under the next handle. An image and a file of no known kind
    /// are not submitted and leave the registry as it was.
    pub fn dispatch(&mut self, request: &LoadRequest) -> (outcome: DispatchOutcome)
        ensures
            request.kind_spec() == TargetKind::Scene ==> {
                &&& outcome == DispatchOutcome::Submitted(Handle { id: old(self).issued_spec() as u64 })
                &&& final(self).submissions() == old(self).submissions().push(submission_of(request))
                &&& final(self).pending_spec() == old(self).pending_spec().push(
                    fresh_entry(Handle { id: old(self).issued_spec() as u64 }),
                )
            },
            request.kind_spec() != TargetKind::Scene ==> {
                &&& outcome == (if request.kind_spec() == TargetKind::Image {
                    DispatchOutcome::Unimplemented
                } else {
                    DispatchOutcome::Ignored
                })
                &&& final(self).submissions() == old(self).submissions()
                &&& final(self).pending_spec() == old(self).pending_spec()
            },
            final(self).server_spec() == old(self).server_spec(),
    {
        proof {
            use_type_invariant(&*self);
        }
        match request.action() {
            DispatchAction::SubmitScene { path, label } => {
                let handle = Handle { id: self.issued.len() as u64 };
                let engine = server_load(&self.server, path.as_str(), label.as_str());
                let mut pending = PendingLoadRegistry::new();
                std::mem::swap(&mut pending, &mut self.pending);
                let mut issued: Vec<IssuedLoad> = Vec::new();
                std::mem::swap(&mut issued, &mut self.issued);
                issued.push(IssuedLoad { path, label, engine });
                self.issued = issued;
                assert(self.submissions() =~= old(self).submissions().push(submission_of(request)));
                assert(!tracks(pending@, handle)) by {
                    if tracks(pending@, handle) {
                        let i = choose|i: int|
                            0 <= i < pending@.len() && (#[trigger] pending@[i]).handle == handle;
                    }
                }
                pending.track(handle);
                self.pending = pending;
                DispatchOutcome::Submitted(handle)
            },
            DispatchAction::ReportUnimplemented => DispatchOutcome::Unimplemented,
            DispatchAction::Ignore => DispatchOutcome::Ignored,
        }
    }

    /// Load reconciliation: one pass over the registry. The asset server is
    /// asked for the status of every pending load. Loads that it reports as
    /// loaded or failed leave the registry and are returned, each with the
    /// path that the server knows it by; the others stay.
    ///
    /// What the server answers is not known beforehand: whatever statuses it
    /// gives, the pass is the one that `still_pending` and `resolved` describe
    /// for them.
    pub fn reconcile(&mut self) -> (report: Vec<Resolution>)
        ensures
            final(self).server_spec() == old(self).server_spec(),
            final(self).submissions() == old(self).submissions(),
            exists|statuses: Seq<LoadStatus>|
                {
                    &&& statuses.len() == old(self).pending_spec().len()
                    &&& final(self).pending_spec() == #[trigger] still_pending(
                        old(self).pending_spec(),
                        statuses,
                    )
                    &&& entries_of(report@) == resolved(old(self).pending_spec(), statuses)
                },
    {
        proof {
            use_type_invariant(&*self);
        }
        let entries = self.pending.entries();
        let mut statuses: Vec<LoadStatus> = Vec::new();
        let mut i: usize = 0;
        while i < entries.len()
            invariant
                i <= entries@.len(),
                statuses@.len() == i,
                self.server == old(self).server,
                entries@ == self.pending@,
                well_formed(entries@),
                self.issued@ == old(self).issued@,
                forall|k: int|
                    0 <= k < entries@.len() ==> (#[trigger] entries@[k]).handle.id
                        < self.issued@.len(),
            decreases entries@.len() - i,
        {
            let id = entries[i].handle.id as usize;
            statuses.push(server_state(&self.server, &self.issued[id].engine).to_status());
            i += 1;
        }
        let mut pending = PendingLoadRegistry::new();
        std::mem::swap(&mut pending, &mut self.pending);
        let ended = pending.reconcile_observed(&statuses);
        proof {
            lemma_pass_partitions(entries@, statuses@);
            assert(forall|h: Handle| tracks(pending@, h) ==> tracks(entries@, h));
            assert(forall|h: Handle| tracks(ended@, h) ==> tracks(entries@, h));
            assert forall|k: int| 0 <= k < pending@.len() implies (#[trigger] pending@[k]).handle.id
                < self.issued@.len() by {
                assert(tracks(pending@, pending@[k].handle));
                let j = choose|j: int|
                    0 <= j < entries@.len() && (#[trigger] entries@[j]).handle == pending@[k].handle;
            }
            assert forall|k: int| 0 <= k < ended@.len() implies (#[trigger] ended@[k]).handle.id
                < self.issued@.len() by {
                assert(tracks(ended@, ended@[k].handle));
                let j = choose|j: int|
                    0 <= j < entries@.len() && (#[trigger] entries@[j]).handle == ended@[k].handle;
            }
        }
        self.pending = pending;
        let mut report: Vec<Resolution> = Vec::new();
        let mut k: usize = 0;
        while k < ended.len()
            invariant
                k <= ended@.len(),
                report@.len() == k,
                self.server == old(self).server,
                self.issued@ == old(self).issued@,
                self.pending@ == still_pending(old(self).pending@, statuses@),
                ended@ == resolved(old(self).pending@, statuses@),
                statuses@.len() == old(self).pending@.len(),
                forall|m: int| 0 <= m < k ==> (#[trigger] report@[m]).entry() == ended@[m],
                forall|m: int|
                    0 <= m < ended@.len() ==> (#[trigger] ended@[m]).handle.id < self.issued@.len(),
            decreases ended@.len() - k,
        {
            let entry = ended[k];
            let found = server_path(&self.server, &self.issued[entry.handle.id as usize].engine);
            report.push(Resolution::new(entry, found));
            k += 1;
        }
        proof {
            assert(entries_of(report@) =~= ended@);
            assert(final(self).pending_spec() == still_pending(old(self).pending_spec(), statuses@));
        }
        report
    }
}

} // verus!
