//! Resource control for containers: detection of the host's control-group
//! layout, and the plans by which limits are put on a group of processes
//! through whichever kernel interface is mounted.

pub mod action;
pub mod decimal;
pub mod delegated;
pub mod devices;
pub mod error;
pub mod factory;
pub mod laws;
pub mod limits;
pub mod manager;
pub mod path;
pub mod pids;
pub mod plan;
pub mod resources;
pub mod root_path;
pub mod setup;
pub mod stats;
pub mod table;
pub mod test_group;
pub mod text;
pub mod v1;
pub mod v2;
