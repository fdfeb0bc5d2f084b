use scene_viewer::registry::{Handle, PendingLoad};
use scene_viewer::report::{Resolution, Severity};
use scene_viewer::status::LoadStatus;

fn entry(id: u64, status: LoadStatus) -> PendingLoad {
    PendingLoad { handle: Handle { id }, status }
}

#[test]
fn resolution_holds_entry_and_path() {
    let r = Resolution::new(entry(3, LoadStatus::Loaded), Some(String::from("models/a.gltf")));
    assert_eq!(r.handle, Handle { id: 3 });
    assert_eq!(r.status, LoadStatus::Loaded);
    assert_eq!(r.path, "models/a.gltf");
    assert!(r.succeeded());
}

#[test]
fn unknown_path_is_reported_as_empty() {
    let r = Resolution::new(entry(3, LoadStatus::Failed), None);
    assert_eq!(r.path, "");
    assert!(!r.succeeded());
    assert_eq!(r.message(), "Failed: ");
}

#[test]
fn report_lines() {
    let ok = Resolution::new(entry(0, LoadStatus::Loaded), Some(String::from("models/a.gltf")));
    let bad = Resolution::new(entry(1, LoadStatus::Failed), Some(String::from("b.glb")));
    assert_eq!(ok.message(), "Loaded: models/a.gltf");
    assert_eq!(bad.message(), "Failed: b.glb");
}

#[test]
fn success_is_information_and_failure_a_warning() {
    let ok = Resolution::new(entry(0, LoadStatus::Loaded), None);
    let bad = Resolution::new(entry(1, LoadStatus::Failed), None);
    assert_eq!(ok.severity(), Severity::Info);
    assert_eq!(bad.severity(), Severity::Warning);
}
