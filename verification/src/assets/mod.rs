//! Image assets: byte validation, content-addressed storage keys and the
//! worker configuration.
pub mod download;
pub mod store;
pub mod types;

use vstd::prelude::*;

verus! {

/// The duration of a whole number of seconds.
pub uninterp spec fn seconds(secs: u64) -> std::time::Duration;

/// The duration of a whole number of milliseconds.
pub uninterp spec fn millis(ms: u64) -> std::time::Duration;

/// Calls `Duration::from_secs`: the duration of `secs` whole seconds.
#[verifier::external_body]
pub(crate) fn duration_secs(secs: u64) -> (r: std::time::Duration)
    ensures
        r == seconds(secs),
{
    std::time::Duration::from_secs(secs)
}

/// Calls `Duration::from_millis`: the duration of `millis` milliseconds.
#[verifier::external_body]
pub(crate) fn duration_millis(ms: u64) -> (r: std::time::Duration)
    ensures
        r == millis(ms),
{
    std::time::Duration::from_millis(ms)
}

/// Download limits and pacing for image assets.
pub struct AssetWorkerConfig {
    pub concurrency_limit: usize,
    pub download_delay: std::time::Duration,
    pub timeout: std::time::Duration,
    pub max_retries: u32,
    pub retry_delay: std::time::Duration,
    pub asset_root: String,
    pub max_size_bytes: usize,
}

impl Default for AssetWorkerConfig {
    /// Three concurrent downloads, 500 ms apart, 10 s timeout, three tries
    /// 2 s apart, at most 10 MiB each, stored under `data/assets`.
    fn default() -> (r: Self)
        ensures
            r.concurrency_limit == 3,
            r.max_retries == 3,
            r.asset_root@ == "data/assets"@,
            r.max_size_bytes == 10 * 1024 * 1024,
            r.download_delay == millis(500),
            r.timeout == seconds(10),
            r.retry_delay == seconds(2),
    {
        AssetWorkerConfig {
            concurrency_limit: 3,
            download_delay: duration_millis(500),
            timeout: duration_secs(10),
            max_retries: 3,
            retry_delay: duration_secs(2),
            asset_root: crate::text::owned("data/assets"),
            max_size_bytes: 10 * 1024 * 1024,
        }
    }
}

/// The number of downloads that may run at once: the configured limit, at
/// least one.
pub fn download_permits(config: &AssetWorkerConfig) -> (r: usize)
    ensures
        r == if config.concurrency_limit < 1 {
            1
        } else {
            config.concurrency_limit
        },
{
    if config.concurrency_limit < 1 {
        1
    } else {
        config.concurrency_limit
    }
}

}
