//! The verified core of the earnscore crawler: feed events, match states,
//! odds, snapshots, detail sections, assets, storage and recovery rules.
use vstd::prelude::*;

pub mod assets;
pub mod crawler;
pub mod detail;
pub mod digest;
pub mod domain;
pub mod feed;
pub mod json;
pub mod recovery;
pub mod storage;
pub mod text;

verus! {
}
