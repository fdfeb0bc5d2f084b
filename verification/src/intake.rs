//! Drop intake: from the drag-and-drop notifications of one tick to load
//! requests.

use vstd::prelude::*;

use crate::request::{kind_of_path, LoadRequest};

verus! {

/// One drag-and-drop notification of the window.
#[derive(Debug)]
pub enum DropEvent {
    /// A file was dropped on the window.
    DroppedFile { path: String },
    /// A file hovers over the window.
    HoveredFile { path: String },
    /// The file that hovered was taken away again.
    HoveredFileCancelled,
}

impl DropEvent {
    /// The path of the file, where the notification is a drop.
    pub open spec fn dropped_path(self) -> Option<Seq<char>> {
        match self {
            DropEvent::DroppedFile { path } => Some(path@),
            _ => None,
        }
    }
}

/// The paths of the files that were dropped, in the order of arrival.
pub open spec fn dropped_paths(events: Seq<DropEvent>) -> Seq<Seq<char>> {
    events.filter_map(|e: DropEvent| e.dropped_path())
}

/// Whether `request` is the request that a drop of `path` gives rise to:
/// it holds the path, is routed by the path's extension, and chooses no
/// sub-scene.
pub open spec fn is_request_for(request: LoadRequest, path: Seq<char>) -> bool {
    &&& request.path_spec() == path
    &&& request.kind_spec() == kind_of_path(path)
    &&& request.chosen_sub_scene() is None
}

/// The all-drops policy: one request for each file dropped in this tick, in
/// the order of arrival. Other notifications give rise to nothing.
pub fn requests_from_drops(events: &Vec<DropEvent>) -> (requests: Vec<LoadRequest>)
    ensures
        requests@.len() == dropped_paths(events@).len(),
        forall|k: int|
            0 <= k < requests@.len() ==> is_request_for(#[trigger] requests@[k], dropped_paths(events@)[k]),
{
    let mut requests: Vec<LoadRequest> = Vec::new();
    let mut i: usize = 0;
    proof {
        assert(events@.take(0) =~= Seq::<DropEvent>::empty());
    }
    while i < events.len()
        invariant
            i <= events@.len(),
            requests@.len() == dropped_paths(events@.take(i as int)).len(),
            forall|k: int|
                0 <= k < requests@.len() ==> is_request_for(
                    #[trigger] requests@[k],
                    dropped_paths(events@.take(i as int))[k],
                ),
        decreases events@.len() - i,
    {
        proof {
            assert(events@.take(i + 1).drop_last() =~= events@.take(i as int));
            assert(events@.take(i + 1).last() == events@[i as int]);
        }
        match &events[i] {
            DropEvent::DroppedFile { path } => {
                requests.push(LoadRequest::from_path(path.clone()));
            },
            _ => {},
        }
        i += 1;
    }
    proof {
        assert(events@.take(events@.len() as int) =~= events@);
    }
    requests
}

/// The last-drop-only policy: where several files were dropped in this tick,
/// all but the last are discarded. `None` where no file was dropped.
pub fn request_from_last_drop(events: &Vec<DropEvent>) -> (request: Option<LoadRequest>)
    ensures
        request is Some <==> dropped_paths(events@).len() > 0,
        request matches Some(r) ==> is_request_for(r, dropped_paths(events@).last()),
{
    let mut i: usize = events.len();
    proof {
        assert(events@.skip(events@.len() as int) =~= Seq::<DropEvent>::empty());
    }
    while i > 0
        invariant
            i <= events@.len(),
            dropped_paths(events@.skip(i as int)).len() == 0,
        decreases i,
    {
        i -= 1;
        match &events[i] {
            DropEvent::DroppedFile { path } => {
                proof {
                    lemma_dropped_paths_split(events@, i as int);
                    assert(events@.take(i + 1).drop_last() =~= events@.take(i as int));
                    assert(events@.take(i + 1).last() == events@[i as int]);
                }
                return Some(LoadRequest::from_path(path.clone()));
            },
            _ => {
                proof {
                    lemma_dropped_paths_first(events@.skip(i as int));
                    assert(events@.skip(i as int).drop_first() =~= events@.skip(i + 1));
                }
            },
        }
    }
    proof {
        assert(events@.skip(0) =~= events@);
    }
    None
}

/// The dropped paths of a sequence are those of its head followed by those of
/// its tail.
pub proof fn lemma_dropped_paths_concat(a: Seq<DropEvent>, b: Seq<DropEvent>)
    ensures
        dropped_paths(a + b) == dropped_paths(a) + dropped_paths(b),
    decreases b.len(),
{
    if b.len() == 0 {
        assert(a + b =~= a);
        assert(dropped_paths(a) + dropped_paths(b) =~= dropped_paths(a));
    } else {
        lemma_dropped_paths_concat(a, b.drop_last());
        assert((a + b).drop_last() =~= a + b.drop_last());
        assert((a + b).last() == b.last());
        match b.last().dropped_path() {
            Some(p) => {
                assert(dropped_paths(a + b) =~= dropped_paths(a) + dropped_paths(b));
            },
            None => {},
        }
    }
}

/// Where nothing was dropped from position `i + 1` on, the dropped paths of
/// the whole are those of the first `i + 1` notifications.
proof fn lemma_dropped_paths_split(events: Seq<DropEvent>, i: int)
    requires
        0 <= i < events.len(),
        dropped_paths(events.skip(i + 1)).len() == 0,
    ensures
        dropped_paths(events) == dropped_paths(events.take(i + 1)),
{
    lemma_dropped_paths_concat(events.take(i + 1), events.skip(i + 1));
    assert(events.take(i + 1) + events.skip(i + 1) =~= events);
    assert(dropped_paths(events.skip(i + 1)) =~= Seq::<Seq<char>>::empty());
    assert(dropped_paths(events.take(i + 1)) + Seq::<Seq<char>>::empty() =~= dropped_paths(
        events.take(i + 1),
    ));
}

/// A notification that is no drop adds nothing in front of the dropped paths
/// of the rest.
proof fn lemma_dropped_paths_first(events: Seq<DropEvent>)
    requires
        events.len() > 0,
        events.first().dropped_path() is None,
    ensures
        dropped_paths(events) == dropped_paths(events.drop_first()),
{
    lemma_dropped_paths_concat(seq![events.first()], events.drop_first());
    assert(seq![events.first()] + events.drop_first() =~= events);
    assert(dropped_paths(seq![events.first()]) =~= Seq::<Seq<char>>::empty()) by {
        reveal_with_fuel(Seq::filter_map, 2);
    }
    assert(Seq::<Seq<char>>::empty() + dropped_paths(events.drop_first()) =~= dropped_paths(
        events.drop_first(),
    ));
}

} // verus!
