//! The asset server of the engine, as far as load tracking calls it.
//!
//! Nothing here is proved: each function below hands one call to the engine,
//! and its contract is taken on trust. What the server answers depends on the
//! disk and on how far its worker threads have come, so no contract says what
//! the answer is.

use bevy::asset::{AssetPath, AssetServer, HandleUntyped, LoadState};
use vstd::prelude::*;

use crate::status::LoadStatus;

verus! {

/// The engine's asset server. A value of it shares the server it was cloned
/// from.
#[verifier::external_type_specification]
#[verifier::external_body]
pub struct ExAssetServer(AssetServer);

/// The engine's handle of one asset. A strong handle keeps the asset alive.
#[verifier::external_type_specification]
#[verifier::external_body]
pub struct ExHandleUntyped(HandleUntyped);

/// The load states that the asset server tells apart.
#[derive(Clone, Copy, Debug, PartialEq, Eq, Structural)]
pub enum ServerState {
    /// The server has not started on the asset, or does not know it.
    NotLoaded,
    /// The asset is being loaded.
    Loading,
    /// The asset is loaded.
    Loaded,
    /// Loading the asset failed.
    Failed,
    /// The asset was loaded, and was freed when its last handle went.
    Unloaded,
}

impl ServerState {
    /// The status that a server state stands for. An asset that was freed is
    /// not loaded.
    pub open spec fn status(self) -> LoadStatus {
        match self {
            ServerState::NotLoaded => LoadStatus::NotLoaded,
            ServerState::Loading => LoadStatus::Loading,
            ServerState::Loaded => LoadStatus::Loaded,
            ServerState::Failed => LoadStatus::Failed,
            ServerState::Unloaded => LoadStatus::NotLoaded,
        }
    }

    /// The status that the server state stands for.
    pub fn to_status(self) -> (status: LoadStatus)
        ensures
            status == self.status(),
    {
        match self {
            ServerState::NotLoaded => LoadStatus::NotLoaded,
            ServerState::Loading => LoadStatus::Loading,
            ServerState::Loaded => LoadStatus::Loaded,
            ServerState::Failed => LoadStatus::Failed,
            ServerState::Unloaded => LoadStatus::NotLoaded,
        }
    }
}

/// Calls `AssetServer::load_untyped` with the asset path made of `path` and
/// `label`: the server queues the load and returns at once with a strong
/// handle. Nothing is claimed of the handle.
#[verifier::external_body]
pub(crate) fn server_load(server: &AssetServer, path: &str, label: &str) -> (handle: HandleUntyped) {
    server.load_untyped(AssetPath::new(std::path::PathBuf::from(path), Some(String::from(label))))
}

/// Calls `AssetServer::get_load_state`, a look-up that does not wait.
/// Nothing is claimed of the state: it may differ from one call to the next.
#[verifier::external_body]
pub(crate) fn server_state(server: &AssetServer, handle: &HandleUntyped) -> (state: ServerState) {
    match server.get_load_state(handle) {
        LoadState::NotLoaded => ServerState::NotLoaded,
        LoadState::Loading => ServerState::Loading,
        LoadState::Loaded => ServerState::Loaded,
        LoadState::Failed => ServerState::Failed,
        LoadState::Unloaded => ServerState::Unloaded,
    }
}

/// Calls `AssetServer::get_handle_path`, and gives the file path of the
/// answer without its label. `None` where the server knows no path for the
/// handle. Nothing is claimed of the path.
#[verifier::external_body]
pub(crate) fn server_path(server: &AssetServer, handle: &HandleUntyped) -> (path: Option<String>) {
    match server.get_handle_path(handle) {
        Some(asset_path) => Some(asset_path.path().to_string_lossy().into_owned()),
        None => None,
    }
}

/// Calls `AssetServer::get_handle_untyped` with the id of `handle`: a strong
/// handle of the same asset. Nothing is claimed of it.
#[verifier::external_body]
pub(crate) fn server_handle(server: &AssetServer, handle: &HandleUntyped) -> (strong: HandleUntyped) {
    server.get_handle_untyped(handle)
}

} // verus!
