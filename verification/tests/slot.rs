use scene_viewer::registry::Handle;
use scene_viewer::slot::{ActiveScene, SceneSlot};
use scene_viewer::status::LoadStatus;

fn scene(id: u64, status: LoadStatus) -> ActiveScene {
    ActiveScene { handle: Handle { id }, status }
}

#[test]
fn new_slot_is_empty() {
    let slot = SceneSlot::new();
    assert_eq!(slot.active(), None);
    assert!(!slot.is_following(Handle { id: 0 }));
}

#[test]
fn submitted_scene_is_followed_as_not_loaded() {
    let mut slot = SceneSlot::new();
    assert_eq!(slot.submit(Handle { id: 4 }), None);
    assert_eq!(slot.active(), Some(scene(4, LoadStatus::NotLoaded)));
    assert!(slot.is_following(Handle { id: 4 }));
}

#[test]
fn second_submission_replaces_the_first() {
    let first = Handle { id: 1 };
    let second = Handle { id: 2 };
    let mut slot = SceneSlot::new();
    slot.submit(first);
    assert_eq!(slot.observe(first, LoadStatus::Loading), None);
    let abandoned = slot.submit(second);
    assert_eq!(abandoned, Some(scene(1, LoadStatus::Loading)));
    assert_eq!(slot.active(), Some(scene(2, LoadStatus::NotLoaded)));
    assert!(!slot.is_following(first));
    assert!(slot.is_following(second));
}

#[test]
fn replaced_load_is_not_observed_when_it_ends() {
    let first = Handle { id: 1 };
    let second = Handle { id: 2 };
    let mut slot = SceneSlot::new();
    slot.submit(first);
    slot.submit(second);
    assert_eq!(slot.observe(first, LoadStatus::Loaded), None);
    assert_eq!(slot.observe(first, LoadStatus::Failed), None);
    assert_eq!(slot.active(), Some(scene(2, LoadStatus::NotLoaded)));
}

#[test]
fn end_of_the_followed_load_is_reported_once() {
    let handle = Handle { id: 9 };
    let mut slot = SceneSlot::new();
    slot.submit(handle);
    assert_eq!(slot.observe(handle, LoadStatus::Loading), None);
    assert_eq!(slot.active(), Some(scene(9, LoadStatus::Loading)));
    assert_eq!(slot.observe(handle, LoadStatus::Loaded), Some(scene(9, LoadStatus::Loaded)));
    assert_eq!(slot.observe(handle, LoadStatus::Loaded), None);
    assert_eq!(slot.active(), Some(scene(9, LoadStatus::Loaded)));
}

#[test]
fn failure_of_the_followed_load_is_reported() {
    let handle = Handle { id: 9 };
    let mut slot = SceneSlot::new();
    slot.submit(handle);
    assert_eq!(slot.observe(handle, LoadStatus::Failed), Some(scene(9, LoadStatus::Failed)));
}

#[test]
fn observation_on_an_empty_slot_changes_nothing() {
    let mut slot = SceneSlot::new();
    assert_eq!(slot.observe(Handle { id: 1 }, LoadStatus::Loaded), None);
    assert_eq!(slot.active(), None);
}

#[test]
fn nothing_leaves_a_terminal_status_in_the_slot() {
    let handle = Handle { id: 9 };
    let mut slot = SceneSlot::new();
    slot.submit(handle);
    slot.observe(handle, LoadStatus::Failed);
    assert_eq!(slot.observe(handle, LoadStatus::Loading), None);
    assert_eq!(slot.observe(handle, LoadStatus::Loaded), None);
    assert_eq!(slot.active(), Some(scene(9, LoadStatus::Failed)));
}

#[test]
fn submitting_the_followed_handle_again_starts_over() {
    let handle = Handle { id: 9 };
    let mut slot = SceneSlot::new();
    slot.submit(handle);
    slot.observe(handle, LoadStatus::Loaded);
    assert_eq!(slot.submit(handle), Some(scene(9, LoadStatus::Loaded)));
    assert_eq!(slot.active(), Some(scene(9, LoadStatus::NotLoaded)));
    assert_eq!(slot.observe(handle, LoadStatus::Loaded), Some(scene(9, LoadStatus::Loaded)));
}
