use vstd::prelude::*;

verus! {

/// Sections refreshed once a previously-live match finishes while the feed
/// is offline.  `period_scores` is materialized from the state history by
/// the recovery finalizer.
pub fn final_detail_sections() -> (r: Vec<&'static str>)
    ensures
        r@.len() == 5,
        r@[0]@ == "overview"@,
        r@[1]@ == "odds"@,
        r@[2]@ == "stats"@,
        r@[3]@ == "incidents"@,
        r@[4]@ == "lineups"@,
{
    let mut v = Vec::new();
    v.push("overview");
    v.push("odds");
    v.push("stats");
    v.push("incidents");
    v.push("lineups");
    v
}

/// Sections an operator's manual refresh plans: the same as a final one.
pub fn manual_detail_sections() -> (r: Vec<&'static str>)
    ensures
        r@.len() == 5,
        r@[0]@ == "overview"@,
        r@[1]@ == "odds"@,
        r@[2]@ == "stats"@,
        r@[3]@ == "incidents"@,
        r@[4]@ == "lineups"@,
{
    final_detail_sections()
}

pub open spec fn pow2(e: nat) -> nat
    decreases e,
{
    if e == 0 {
        1
    } else {
        2 * pow2((e - 1) as nat)
    }
}

/// The exponential backoff before jitter: `base` on the first attempt,
/// doubling per further attempt (saturating), capped at `max`.
pub open spec fn backoff_secs(attempt_count: int, base: u64, max: u64) -> int {
    if attempt_count <= 0 {
        base as int
    } else {
        let scaled = base * pow2((attempt_count - 1) as nat);
        let sat = if scaled > u64::MAX {
            u64::MAX as int
        } else {
            scaled
        };
        if sat < max {
            sat
        } else {
            max as int
        }
    }
}

/// The backoff delay in seconds before jitter.  `2^(attempt-1)` must fit a
/// `u64`, so at most 64 attempts are accepted.
pub fn retry_backoff_secs(attempt_count: i32, base_delay_secs: u64, max_delay_secs: u64) -> (r: u64)
    requires
        attempt_count <= 64,
    ensures
        r as int == backoff_secs(attempt_count as int, base_delay_secs, max_delay_secs),
{
    if attempt_count <= 0 {
        return base_delay_secs;
    }
    let e: u32 = (attempt_count - 1) as u32;
    let mut factor: u64 = 1;
    let mut i: u32 = 0;
    while i < e
        invariant
            i <= e,
            e <= 63,
            factor as nat == pow2(i as nat),
            factor <= 0x8000_0000_0000_0000u64,
        decreases e - i,
    {
        proof {
            lemma_pow2_bound(i as nat, e as nat);
        }
        factor = factor * 2;
        i = i + 1;
    }
    let delay = match base_delay_secs.checked_mul(factor) {
        Some(d) => d,
        None => u64::MAX,
    };
    if delay < max_delay_secs {
        delay
    } else {
        max_delay_secs
    }
}

proof fn lemma_pow2_bound(i: nat, e: nat)
    requires
        i < e,
        e <= 63,
    ensures
        pow2(i + 1) <= 0x8000_0000_0000_0000,
    decreases e,
{
    lemma_pow2_mono(i + 1, 63);
    assert(pow2(63) == 0x8000_0000_0000_0000) by {
        reveal_with_fuel(pow2, 64);
    }
}

proof fn lemma_pow2_mono(a: nat, b: nat)
    requires
        a <= b,
    ensures
        pow2(a) <= pow2(b),
    decreases b,
{
    if a < b {
        lemma_pow2_mono(a, (b - 1) as nat);
    }
}

}
