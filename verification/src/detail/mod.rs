//! Match detail sections: section names, job states and payload extraction.
pub mod extractor;
pub mod jobs;
pub mod types;

use vstd::prelude::*;
use crate::crawler::snapshot::{detail_match_id, str_or_empty};
use crate::detail::jobs::{backoff_secs, retry_backoff_secs};
use crate::json::{as_i64, member, member_i64, member_str, Json, JsonV};
use crate::text::str_eq;

verus! {

/// Limits and pacing of the detail worker.
pub struct DetailWorkerConfig {
    pub concurrency_limit: usize,
    pub lease_duration_secs: i64,
    pub base_delay_secs: u64,
    pub max_delay_secs: u64,
    pub max_attempts: i32,
    pub min_delay_ms: u64,
    pub readiness_timeout: std::time::Duration,
    pub probe_interval: std::time::Duration,
}

impl Default for DetailWorkerConfig {
    /// One job at a time, 30 s leases, retries from 5 s up to 300 s, five
    /// attempts, 1 s settle delay, 25 s readiness timeout, probes 800 ms
    /// apart.
    fn default() -> (r: Self)
        ensures
            r.concurrency_limit == 1,
            r.lease_duration_secs == 30,
            r.base_delay_secs == 5,
            r.max_delay_secs == 300,
            r.max_attempts == 5,
            r.min_delay_ms == 1000,
            r.readiness_timeout == crate::assets::seconds(25),
            r.probe_interval == crate::assets::millis(800),
    {
        DetailWorkerConfig {
            concurrency_limit: 1,
            lease_duration_secs: 30,
            base_delay_secs: 5,
            max_delay_secs: 300,
            max_attempts: 5,
            min_delay_ms: 1000,
            readiness_timeout: crate::assets::duration_secs(25),
            probe_interval: crate::assets::duration_millis(800),
        }
    }
}

/// The sport a probed detail names: `sportId`, else `sport_id`, else 0.
pub open spec fn probe_sport(v: JsonV) -> i32 {
    match as_i64(member(v, "sportId"@)) {
        Some(s) => s as i32,
        None => match as_i64(member(v, "sport_id"@)) {
            Some(s) => s as i32,
            None => 0,
        },
    }
}

/// A probed detail is accepted once it is present and names the job's
/// match and sport.
pub fn detail_probe_accepted(v: &Json, match_id: &str, sport_id: i32) -> (r: bool)
    ensures
        r == (!(v@ is Null) && detail_match_id(v@) == match_id@ && probe_sport(v@) == sport_id),
{
    match v {
        Json::Null => {
            return false;
        },
        _ => {},
    }
    let same_match = match member_str(v, "matchId") {
        Some(s) => str_eq(s.as_str(), match_id),
        None => match member_str(v, "match_id") {
            Some(s) => str_eq(s.as_str(), match_id),
            None => {
                let e = match_id.is_empty();
                proof {
                    if e {
                        assert(match_id@ =~= Seq::<char>::empty());
                    }
                }
                e
            },
        },
    };
    let sport: i64 = match member_i64(v, "sportId") {
        Some(s) => s,
        None => match member_i64(v, "sport_id") {
            Some(s) => s,
            None => 0,
        },
    };
    same_match && sport as i32 == sport_id
}

/// How a failed detail job is recorded: whether it failed for good (its
/// attempts are used up) and the retry delay in seconds before jitter.
pub fn detail_job_failure(attempt_count: i32, config: &DetailWorkerConfig) -> (r: (bool, u64))
    requires
        attempt_count <= 64,
    ensures
        r.0 == (attempt_count >= config.max_attempts),
        r.1 as int == backoff_secs(attempt_count as int, config.base_delay_secs, config.max_delay_secs),
{
    let permanent = attempt_count >= config.max_attempts;
    let delay = retry_backoff_secs(attempt_count, config.base_delay_secs, config.max_delay_secs);
    (permanent, delay)
}

} // verus!
