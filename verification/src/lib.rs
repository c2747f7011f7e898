//! Verified core of `voidctl`, a personal machine operations tool: project
//! jump aliases and saved commands, cleanup classification and deletion
//! bookkeeping, and dotfiles drift detection.
pub mod clean;
pub mod config;
pub mod drift;
pub mod jump;
pub mod order;
pub mod paths;
pub mod report;
pub mod runner;
pub mod search;
pub mod table;
pub mod text;
