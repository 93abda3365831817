//! Source-neutral domain types used by the live feed and persistence layers.
pub mod events;
pub mod match_state;
pub mod odds;
pub mod decimal;
