//! Storage decisions: event application, odds, detail sections, backups
//! and the legacy conversion.
pub mod repositories;
pub mod migration;
pub mod backup;
