//! The live feed: source contracts and the session's decisions.
pub mod adapters;

pub use adapters::basketball::BasketballAdapter;
pub use adapters::football::FootballAdapter;
pub mod browser;
pub mod session;
