//! The single-slot tracker: at most one scene load is followed at a time.
//!
//! Submitting a scene replaces whatever the slot held. The load that was
//! replaced is abandoned: it is neither cancelled nor awaited, and nothing
//! that is later observed of it reaches the slot.

use vstd::prelude::*;

use crate::registry::Handle;
use crate::status::LoadStatus;

verus! {

/// The one scene load that is followed, with the status last observed of it.
#[derive(Clone, Copy, Debug, PartialEq, Eq, Structural)]
pub struct ActiveScene {
    pub handle: Handle,
    pub status: LoadStatus,
}

/// A slot that holds at most one `ActiveScene`.
#[derive(Debug)]
pub struct SceneSlot {
    active: Option<ActiveScene>,
}

/// The slot after the load `handle` was submitted.
pub open spec fn submitted(handle: Handle) -> Option<ActiveScene> {
    Some(ActiveScene { handle, status: LoadStatus::NotLoaded })
}

/// Whether the slot follows `handle`.
pub open spec fn follows(slot: Option<ActiveScene>, handle: Handle) -> bool {
    slot matches Some(scene) && scene.handle == handle
}

/// The slot after `status` was observed of `handle`. Where the slot follows
/// that handle and its load has not ended, the status is recorded. Nothing
/// changes where the slot follows another handle or none, and nothing leaves
/// a terminal status once it is recorded.
pub open spec fn observed(slot: Option<ActiveScene>, handle: Handle, status: LoadStatus) -> Option<
    ActiveScene,
> {
    if follows(slot, handle) && !slot->0.status.terminal() {
        Some(ActiveScene { handle, status })
    } else {
        slot
    }
}

/// What an observation reports: the scene, where the slot follows `handle`
/// and the load is seen as ended for the first time.
pub open spec fn newly_resolved(slot: Option<ActiveScene>, handle: Handle, status: LoadStatus) -> Option<
    ActiveScene,
> {
    if follows(slot, handle) && !slot->0.status.terminal() && status.terminal() {
        Some(ActiveScene { handle, status })
    } else {
        None
    }
}

/// Submitting a second load replaces the first: the slot then follows the
/// second handle alone, and nothing that is later observed of the first, not
/// even its end, changes the slot or is reported.
pub proof fn lemma_replaced_load_is_unobservable(
    slot: Option<ActiveScene>,
    first: Handle,
    second: Handle,
    status: LoadStatus,
)
    requires
        follows(slot, first),
        first != second,
    ensures
        follows(submitted(second), second),
        !follows(submitted(second), first),
        observed(submitted(second), first, status) == submitted(second),
        newly_resolved(submitted(second), first, status) is None,
{
}

/// The end of the load that the slot follows is reported once: the
/// observation that first sees it as ended reports it, and no observation
/// after that reports anything or changes the status that was recorded.
pub proof fn lemma_end_is_reported_once(
    slot: Option<ActiveScene>,
    handle: Handle,
    ended: LoadStatus,
    later: LoadStatus,
)
    requires
        follows(slot, handle),
        !slot->0.status.terminal(),
        ended.terminal(),
    ensures
        newly_resolved(slot, handle, ended) == Some(ActiveScene { handle, status: ended }),
        newly_resolved(observed(slot, handle, ended), handle, later) is None,
        observed(observed(slot, handle, ended), handle, later) == observed(slot, handle, ended),
{
}

impl View for SceneSlot {
    type V = Option<ActiveScene>;

    closed spec fn view(&self) -> Option<ActiveScene> {
        self.active
    }
}

impl SceneSlot {
    /// An empty slot.
    pub fn new() -> (slot: SceneSlot)
        ensures
            slot@ is None,
    {
        SceneSlot { active: None }
    }

    /// The scene that is followed, if any.
    pub fn active(&self) -> (scene: Option<ActiveScene>)
        ensures
            scene == self@,
    {
        self.active
    }

    /// Whether the slot follows `handle`.
    pub fn is_following(&self, handle: Handle) -> (b: bool)
        ensures
            b == follows(self@, handle),
    {
        match self.active {
            Some(scene) => scene.handle.id == handle.id,
            None => false,
        }
    }

    /// Follows `handle` from now on, with the status `NotLoaded`. Returns what
    /// the slot held before, which is followed no longer.
    pub fn submit(&mut self, handle: Handle) -> (abandoned: Option<ActiveScene>)
        ensures
            final(self)@ == submitted(handle),
            abandoned == old(self)@,
    {
        let abandoned = self.active;
        self.active = Some(ActiveScene { handle, status: LoadStatus::NotLoaded });
        abandoned
    }

    /// Records that `status` was observed of `handle`. Where the slot follows
    /// another handle, or none, or a load that has ended already, nothing
    /// changes and nothing is reported. Otherwise the status is recorded, and
    /// the scene is returned where the load is now seen as ended.
    pub fn observe(&mut self, handle: Handle, status: LoadStatus) -> (ended: Option<ActiveScene>)
        ensures
            final(self)@ == observed(old(self)@, handle, status),
            ended == newly_resolved(old(self)@, handle, status),
    {
        match self.active {
            Some(scene) => {
                if scene.handle.id == handle.id && !scene.status.is_terminal() {
                    let seen = ActiveScene { handle, status };
                    self.active = Some(seen);
                    if status.is_terminal() {
                        Some(seen)
                    } else {
                        None
                    }
                } else {
                    None
                }
            },
            None => None,
        }
    }
}

} // verus!
