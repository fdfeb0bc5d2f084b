//! What a reconciliation pass reports of the loads that ended.

use vstd::prelude::*;
use vstd::string::StringExecFns;

use crate::registry::{Handle, PendingLoad};
use crate::status::LoadStatus;

verus! {

/// The outcome of one load that ended: which load, how it ended, and the path
/// it was loaded from. The path is empty where the loader no longer knows it.
#[derive(Debug)]
pub struct Resolution {
    pub handle: Handle,
    pub status: LoadStatus,
    pub path: String,
}

/// How loudly a resolution is logged.
#[derive(Clone, Copy, Debug, PartialEq, Eq, Structural)]
pub enum Severity {
    /// A load that succeeded is worth a line of information.
    Info,
    /// A load that failed is worth a warning. It is not tried again.
    Warning,
}

/// The path that is reported: the one that was found, or the empty string.
pub open spec fn reported_path(found: Option<Seq<char>>) -> Seq<char> {
    match found {
        Some(path) => path,
        None => Seq::<char>::empty(),
    }
}

/// The text between the status and the path in a report line.
pub open spec fn separator() -> Seq<char> {
    ": "@
}

impl Resolution {
    /// The registry entry that the resolution speaks of.
    pub open spec fn entry(&self) -> PendingLoad {
        PendingLoad { handle: self.handle, status: self.status }
    }

    /// The line that reports the resolution: the status, a colon and the path.
    pub open spec fn message_spec(&self) -> Seq<char> {
        self.status.name_spec() + separator() + self.path@
    }

    /// The resolution of `entry`. `found` is the path under which the loader
    /// knows the load; where it knows none, the path is reported as empty.
    pub fn new(entry: PendingLoad, found: Option<String>) -> (resolution: Resolution)
        ensures
            resolution.entry() == entry,
            resolution.path@ == reported_path(
                match found {
                    Some(path) => Some(path@),
                    None => None,
                },
            ),
    {
        let path = match found {
            Some(path) => path,
            None => String::new(),
        };
        Resolution { handle: entry.handle, status: entry.status, path }
    }

    /// Whether the load ended with success.
    pub fn succeeded(&self) -> (ok: bool)
        ensures
            ok == (self.status == LoadStatus::Loaded),
    {
        match self.status {
            LoadStatus::Loaded => true,
            _ => false,
        }
    }

    /// How the resolution is logged: a success as information, anything else
    /// as a warning.
    pub fn severity(&self) -> (level: Severity)
        ensures
            level == (if self.status == LoadStatus::Loaded {
                Severity::Info
            } else {
                Severity::Warning
            }),
    {
        if self.succeeded() {
            Severity::Info
        } else {
            Severity::Warning
        }
    }

    /// The line that reports the resolution, such as `Loaded: models/a.gltf`.
    pub fn message(&self) -> (line: String)
        ensures
            line@ == self.message_spec(),
    {
        let mut line = String::from_str(self.status.name());
        line.append(": ");
        line.append(self.path.as_str());
        line
    }
}

} // verus!
