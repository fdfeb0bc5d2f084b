//! Load tracking for a drag-and-drop scene viewer.
//!
//! A viewer takes the files that are dropped on its window, hands the model
//! files among them to an asset server that loads them in the background, and
//! waits for each load to end. This library holds what the viewer decides on
//! the way, with each decision stated as a contract and proved:
//!
//! - `intake` turns the drag-and-drop notifications of one tick into load
//!   requests;
//! - `request` routes a request by the extension of its path;
//! - `registry` keeps the loads that are under way, and in each
//!   reconciliation pass retires those that have ended, each exactly once;
//! - `slot` is the registry's small sibling that follows one load only;
//! - `report` words the outcome of a load that ended;
//! - `tracker` binds a registry to the asset server, through the calls that
//!   `engine` wraps;
//! - `laws` proves what holds over any number of passes.

pub mod engine;
pub mod intake;
pub mod laws;
pub mod registry;
pub mod report;
pub mod request;
pub mod slot;
pub mod status;
pub mod tracker;
