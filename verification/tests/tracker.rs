use std::path::{Path, PathBuf};
use std::time::{Duration, Instant};

use bevy::app::App;
use bevy::asset::{
    AddAsset, AssetIo, AssetIoError, AssetLoader, AssetPlugin, AssetServer, BoxedFuture,
    LoadContext, LoadedAsset,
};
use bevy::ecs::world::World;
use bevy::scene::Scene;
use bevy::tasks::TaskPool;
use scene_viewer::engine::ServerState;
use scene_viewer::registry::{Handle, PendingLoad};
use scene_viewer::report::Resolution;
use scene_viewer::request::LoadRequest;
use scene_viewer::status::LoadStatus;
use scene_viewer::tracker::{DispatchOutcome, LoadTracker};

/// Files kept nowhere: a path below `missing` does not exist, any other file
/// holds one byte.
struct MemoryIo;

impl AssetIo for MemoryIo {
    fn load_path<'a>(&'a self, path: &'a Path) -> BoxedFuture<'a, Result<Vec<u8>, AssetIoError>> {
        Box::pin(async move {
            if path.starts_with("missing") {
                Err(AssetIoError::NotFound(path.to_path_buf()))
            } else {
                Ok(vec![0u8])
            }
        })
    }

    fn read_directory(
        &self,
        _path: &Path,
    ) -> Result<Box<dyn Iterator<Item = PathBuf>>, AssetIoError> {
        Ok(Box::new(std::iter::empty()))
    }

    fn is_directory(&self, _path: &Path) -> bool {
        false
    }

    fn watch_path_for_changes(&self, _path: &Path) -> Result<(), AssetIoError> {
        Ok(())
    }

    fn watch_for_changes(&self) -> Result<(), AssetIoError> {
        Ok(())
    }
}

/// Makes of every model file one empty scene, under the label of the first
/// sub-scene.
struct OneSceneLoader;

impl AssetLoader for OneSceneLoader {
    fn load<'a>(
        &'a self,
        _bytes: &'a [u8],
        load_context: &'a mut LoadContext,
    ) -> BoxedFuture<'a, Result<(), anyhow::Error>> {
        Box::pin(async move {
            load_context.set_labeled_asset("Scene0", LoadedAsset::new(Scene::new(World::new())));
            Ok(())
        })
    }

    fn extensions(&self) -> &[&str] {
        &["gltf", "glb"]
    }
}

fn viewer() -> (App, LoadTracker) {
    let server = AssetServer::new(MemoryIo, TaskPool::new());
    let mut app = App::new();
    app.insert_resource(server.clone());
    app.add_plugin(AssetPlugin);
    app.add_asset::<Scene>();
    app.add_asset_loader(OneSceneLoader);
    (app, LoadTracker::new(server))
}

fn request(path: &str) -> LoadRequest {
    LoadRequest::from_path(String::from(path))
}

fn entry(id: u64, status: LoadStatus) -> PendingLoad {
    PendingLoad { handle: Handle { id }, status }
}

fn run_until_settled(app: &mut App, tracker: &mut LoadTracker) -> Vec<Resolution> {
    let deadline = Instant::now() + Duration::from_secs(15);
    let mut report = Vec::new();
    while !tracker.pending().is_empty() && Instant::now() < deadline {
        app.update();
        report.extend(tracker.reconcile());
        std::hint::spin_loop();
    }
    report
}

#[test]
fn new_tracker_has_nothing_pending() {
    let (_app, tracker) = viewer();
    assert!(tracker.pending().is_empty());
    assert_eq!(tracker.issued(), 0);
    assert!(tracker.scene_handle(Handle { id: 0 }).is_none());
    assert_eq!(tracker.submitted_path(Handle { id: 0 }), None);
    assert_eq!(tracker.submitted_label(Handle { id: 0 }), None);
}

#[test]
fn dispatch_submits_scenes_only() {
    let (_app, mut tracker) = viewer();
    assert_eq!(
        tracker.dispatch(&request("a.gltf")),
        DispatchOutcome::Submitted(Handle { id: 0 })
    );
    assert_eq!(
        tracker.dispatch(&request("b.glb")),
        DispatchOutcome::Submitted(Handle { id: 1 })
    );
    assert_eq!(tracker.dispatch(&request("c.png")), DispatchOutcome::Unimplemented);
    assert_eq!(tracker.dispatch(&request("d.xyz")), DispatchOutcome::Ignored);
    assert_eq!(tracker.issued(), 2);
    assert_eq!(
        tracker.pending().entries(),
        vec![entry(0, LoadStatus::NotLoaded), entry(1, LoadStatus::NotLoaded)]
    );
    assert_eq!(tracker.submitted_path(Handle { id: 0 }), Some("a.gltf"));
    assert_eq!(tracker.submitted_label(Handle { id: 0 }), Some("Scene0"));
    assert_eq!(tracker.submitted_path(Handle { id: 1 }), Some("b.glb"));
    assert_eq!(tracker.submitted_label(Handle { id: 1 }), Some("Scene0"));
    assert_eq!(tracker.submitted_path(Handle { id: 2 }), None);
}

#[test]
fn unknown_extension_adds_no_entry() {
    let (_app, mut tracker) = viewer();
    for path in ["d.xyz", "README", "", ".gltf", "c.png", "e.jpg", "F.GLTF"] {
        let outcome = tracker.dispatch(&request(path));
        assert!(!matches!(outcome, DispatchOutcome::Submitted(_)));
        assert!(tracker.pending().is_empty());
        assert_eq!(tracker.issued(), 0);
    }
}

#[test]
fn same_path_twice_gives_two_entries() {
    let (_app, mut tracker) = viewer();
    let first = tracker.dispatch(&request("a.gltf"));
    let second = tracker.dispatch(&request("a.gltf"));
    assert_eq!(first, DispatchOutcome::Submitted(Handle { id: 0 }));
    assert_eq!(second, DispatchOutcome::Submitted(Handle { id: 1 }));
    assert_eq!(tracker.pending().len(), 2);
}

#[test]
fn chosen_sub_scene_is_handed_to_the_server() {
    let (_app, mut tracker) = viewer();
    tracker.dispatch(&request("a.gltf").with_sub_scene(2));
    assert_eq!(tracker.submitted_path(Handle { id: 0 }), Some("a.gltf"));
    assert_eq!(tracker.submitted_label(Handle { id: 0 }), Some("Scene2"));
}

#[test]
fn engine_handle_of_a_submitted_load() {
    let (_app, mut tracker) = viewer();
    tracker.dispatch(&request("a.gltf"));
    let engine = tracker.scene_handle(Handle { id: 0 }).unwrap();
    assert!(engine.is_strong());
    let again = tracker.scene_handle(Handle { id: 0 }).unwrap();
    assert_eq!(engine, again);
    assert!(tracker.scene_handle(Handle { id: 1 }).is_none());
}

#[test]
fn pass_over_nothing_reports_nothing() {
    let (mut app, mut tracker) = viewer();
    app.update();
    assert_eq!(tracker.reconcile().len(), 0);
    assert!(tracker.pending().is_empty());
}

#[test]
fn loads_end_and_are_reported_once_each() {
    let (mut app, mut tracker) = viewer();
    tracker.dispatch(&request("ok.gltf"));
    tracker.dispatch(&request("missing/gone.glb"));
    tracker.dispatch(&request("c.png"));
    tracker.dispatch(&request("models/also_ok.glb"));
    let mut report = run_until_settled(&mut app, &mut tracker);
    assert!(tracker.pending().is_empty());
    assert_eq!(tracker.issued(), 3);
    report.sort_by_key(|r| r.handle.id);
    let seen: Vec<(u64, LoadStatus, &str)> =
        report.iter().map(|r| (r.handle.id, r.status, r.path.as_str())).collect();
    assert_eq!(
        seen,
        vec![
            (0, LoadStatus::Loaded, "ok.gltf"),
            (1, LoadStatus::Failed, "missing/gone.glb"),
            (2, LoadStatus::Loaded, "models/also_ok.glb"),
        ]
    );
    app.update();
    assert_eq!(tracker.reconcile().len(), 0);
}

#[test]
fn path_with_a_hash_sign_reaches_the_server_whole() {
    let (mut app, mut tracker) = viewer();
    tracker.dispatch(&request("take#2.gltf"));
    let report = run_until_settled(&mut app, &mut tracker);
    assert_eq!(report.len(), 1);
    assert_eq!(report[0].status, LoadStatus::Loaded);
    assert_eq!(report[0].path, "take#2.gltf");
}

#[test]
fn server_states_as_statuses() {
    assert_eq!(ServerState::NotLoaded.to_status(), LoadStatus::NotLoaded);
    assert_eq!(ServerState::Loading.to_status(), LoadStatus::Loading);
    assert_eq!(ServerState::Loaded.to_status(), LoadStatus::Loaded);
    assert_eq!(ServerState::Failed.to_status(), LoadStatus::Failed);
    assert_eq!(ServerState::Unloaded.to_status(), LoadStatus::NotLoaded);
}
