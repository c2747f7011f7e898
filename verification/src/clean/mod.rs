//! System hygiene: cleanup categories and targets, build-artifact
//! recognition, disk hotspots, privilege checks and deletion bookkeeping.
pub mod artifacts;
pub mod classifier;
pub mod deletion;
pub mod hotspots;
pub mod logs_cache;
pub mod privilege;
pub mod selection;
pub mod sizes;
pub mod sources;
pub mod walk;
