//! The collaborator layer: the staged filesystem image, the command
//! recorder, the service and package managers, and the interfaces the
//! embedding application implements for real execution.

pub mod apt;
pub mod command;
pub mod file_system;
pub mod interface;
pub mod service_manager;
pub mod systemd;
