//! Sources as the build of a recipe uses them.

pub mod download;
pub mod guarantees;
pub mod promises;
pub mod store;
pub mod syncing;
pub mod upstream;
