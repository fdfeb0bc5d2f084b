//! The status of one asynchronous load and its small state machine.

use vstd::prelude::*;

verus! {

/// The last-observed state of one asynchronous load.
///
/// A load starts as `NotLoaded`, moves to `Loading`, and ends as `Loaded`
/// or `Failed`. Nothing leaves the two final states.
#[derive(Clone, Copy, Debug, PartialEq, Eq, Hash, Structural)]
pub enum LoadStatus {
    /// Submitted, but the loader has not started on it.
    NotLoaded,
    /// The loader is working on it.
    Loading,
    /// The load finished with success.
    Loaded,
    /// The load finished with an error.
    Failed,
}

impl LoadStatus {
    /// A status is terminal when the load has ended, well or badly.
    pub open spec fn terminal(self) -> bool {
        self == LoadStatus::Loaded || self == LoadStatus::Failed
    }

    /// The transitions of the state machine: one step from `self` to `next`.
    pub open spec fn steps_to(self, next: LoadStatus) -> bool {
        ||| self == LoadStatus::NotLoaded && next == LoadStatus::Loading
        ||| self == LoadStatus::Loading && next == LoadStatus::Loaded
        ||| self == LoadStatus::Loading && next == LoadStatus::Failed
    }

    /// Whether the load has ended.
    pub fn is_terminal(self) -> (r: bool)
        ensures
            r == self.terminal(),
    {
        match self {
            LoadStatus::Loaded => true,
            LoadStatus::Failed => true,
            LoadStatus::NotLoaded => false,
            LoadStatus::Loading => false,
        }
    }

    /// Whether the state machine allows the step from `self` to `next`.
    pub fn can_step_to(self, next: LoadStatus) -> (r: bool)
        ensures
            r == self.steps_to(next),
    {
        match self {
            LoadStatus::NotLoaded => next == LoadStatus::Loading,
            LoadStatus::Loading => next == LoadStatus::Loaded || next == LoadStatus::Failed,
            LoadStatus::Loaded => false,
            LoadStatus::Failed => false,
        }
    }

    /// The name of the status, as it stands in a report.
    pub fn name(self) -> (s: &'static str)
        ensures
            s@ == self.name_spec(),
    {
        match self {
            LoadStatus::NotLoaded => "NotLoaded",
            LoadStatus::Loading => "Loading",
            LoadStatus::Loaded => "Loaded",
            LoadStatus::Failed => "Failed",
        }
    }

    /// The characters of the status's name.
    pub open spec fn name_spec(self) -> Seq<char> {
        match self {
            LoadStatus::NotLoaded => "NotLoaded"@,
            LoadStatus::Loading => "Loading"@,
            LoadStatus::Loaded => "Loaded"@,
            LoadStatus::Failed => "Failed"@,
        }
    }
}

/// Nothing follows a terminal status, and nothing but `Loading` leads to one:
/// a load that has not started cannot end.
pub proof fn lemma_terminal_is_final(from: LoadStatus, to: LoadStatus)
    ensures
        from.terminal() ==> !from.steps_to(to),
        from.steps_to(to) && to.terminal() ==> from == LoadStatus::Loading,
        from.steps_to(to) ==> from != to,
{
}

} // verus!
