//! The list crawler: command-line values, the sport adapters, snapshot
//! validation, row reconciliation and the sync worker's decisions.
pub mod cli;
pub mod adapters;
pub mod snapshot;
pub mod rows;
pub mod sync;
