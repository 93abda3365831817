//! The recovery manager: its settings, its jobs, and what it does with a
//! reacquired result or with the local state of a claimed job.
use vstd::prelude::*;
use crate::domain::events::NormalizedEvent;
use crate::domain::match_state::{AdmissionEvidence, InternalState};
use crate::text::{extend_str, owned, string_from_chars};

verus! {

/// Timing and limits of recovery.
#[derive(Debug)]
pub struct RecoveryConfig {
    pub grace_period: std::time::Duration,
    pub retry_delay: std::time::Duration,
    pub max_attempts: i32,
    pub lease_duration: std::time::Duration,
}

impl Default for RecoveryConfig {
    /// Fifteen minutes of grace, retries 30 s apart, five attempts, 60 s
    /// leases.
    fn default() -> (r: Self)
        ensures
            r.max_attempts == 5,
            r.grace_period == crate::assets::seconds(900),
            r.retry_delay == crate::assets::seconds(30),
            r.lease_duration == crate::assets::seconds(60),
    {
        RecoveryConfig {
            grace_period: crate::assets::duration_secs(15 * 60),
            retry_delay: crate::assets::duration_secs(30),
            max_attempts: 5,
            lease_duration: crate::assets::duration_secs(60),
        }
    }
}

/// A durable recovery job.
#[derive(Debug, Clone)]
pub struct RecoveryJob {
    pub id: i64,
    pub match_id: String,
    pub dataset_id: String,
    pub reason: String,
    pub status: String,
    pub attempt_count: i32,
    pub grace_until: Option<String>,
}

/// A reacquired result for a recovering match.
#[derive(Debug)]
pub enum RecoveryOutcome {
    StillLive { event: NormalizedEvent, evidence: AdmissionEvidence },
    Finished { event: NormalizedEvent, evidence: AdmissionEvidence },
    Cancelled { event: NormalizedEvent, evidence: AdmissionEvidence },
    Postponed { event: NormalizedEvent, evidence: AdmissionEvidence },
    Abandoned { event: NormalizedEvent, evidence: AdmissionEvidence },
    NotFound,
}

/// What to do with a reacquired result.
#[derive(Debug)]
pub enum Reconciliation {
    /// Not found: retry the job, or mark the match unknown once its grace
    /// is spent.  No replacement match is created.
    RetryOrExpire,
    /// Still live: apply the event and close the job.
    ApplyAndComplete { event: NormalizedEvent, evidence: AdmissionEvidence },
    /// Over: apply the event, begin the FINAL version, plan its sections and
    /// wait for them.
    ApplyAndFinalize { event: NormalizedEvent, evidence: AdmissionEvidence },
}

/// What a job whose match was not found does next.  Neither step creates a
/// match or a finalization version.
#[derive(Debug, Clone, Copy, PartialEq, Eq, Structural)]
pub enum NotFoundAction {
    /// Grace remains: the job is scheduled again.
    Retry,
    /// Grace is spent: the existing match's latest state becomes `state`
    /// and the job is completed.
    MarkUnknown { state: InternalState },
}

/// What a claimed job needs, judged from the local state alone.
#[derive(Debug, Clone, Copy, PartialEq, Eq, Structural)]
pub enum DispatchAction {
    /// The match is live: the next feed event resolves it.
    Complete,
    /// The match has a terminal state: run the FINAL plan.
    Finalize,
    /// Unresolved: leave it retryable rather than guess it finished.
    Retry,
}

/// The recovery worker of one dataset.
pub struct RecoveryManager {
    pub db_path: String,
    pub dataset_id: String,
    pub config: RecoveryConfig,
    pub worker_id: String,
}

impl RecoveryManager {
    /// A manager with the default settings and a fresh worker id
    /// (`recovery-` and a random identifier).
    pub fn new(db_path: String, dataset_id: String) -> (r: Self)
        ensures
            r.db_path == db_path,
            r.dataset_id == dataset_id,
            r.config.max_attempts == 5,
            exists|u: Seq<char>|
                crate::feed::session::uuid_v4_text(u) && r.worker_id@ == "recovery-"@ + u,
    {
        let id = crate::feed::session::new_uuid();
        let mut w: Vec<char> = Vec::new();
        proof {
            reveal_strlit("recovery-");
        }
        extend_str(&mut w, "recovery-");
        extend_str(&mut w, id.as_str());
        assert(w@ =~= "recovery-"@ + id@);
        RecoveryManager { db_path, dataset_id, config: RecoveryConfig::default(), worker_id: string_from_chars(&w) }
    }

    /// Routes a reacquired result.
    pub fn reconcile(outcome: RecoveryOutcome) -> (r: Reconciliation)
        ensures
            match outcome {
                RecoveryOutcome::NotFound => r is RetryOrExpire,
                RecoveryOutcome::StillLive { event, evidence } => r == (Reconciliation::ApplyAndComplete {
                    event,
                    evidence,
                }),
                RecoveryOutcome::Finished { event, evidence }
                | RecoveryOutcome::Cancelled { event, evidence }
                | RecoveryOutcome::Postponed { event, evidence }
                | RecoveryOutcome::Abandoned { event, evidence } => r == (Reconciliation::ApplyAndFinalize {
                    event,
                    evidence,
                }),
            },
    {
        match outcome {
            RecoveryOutcome::NotFound => Reconciliation::RetryOrExpire,
            RecoveryOutcome::StillLive { event, evidence } => Reconciliation::ApplyAndComplete {
                event,
                evidence,
            },
            RecoveryOutcome::Finished { event, evidence }
            | RecoveryOutcome::Cancelled { event, evidence }
            | RecoveryOutcome::Postponed { event, evidence }
            | RecoveryOutcome::Abandoned { event, evidence } => Reconciliation::ApplyAndFinalize {
                event,
                evidence,
            },
        }
    }

    /// The step for a claimed job from its match's local state.
    pub fn dispatch_action(live: bool, terminal: bool) -> (r: DispatchAction)
        ensures
            r == if live {
                DispatchAction::Complete
            } else if terminal {
                DispatchAction::Finalize
            } else {
                DispatchAction::Retry
            },
    {
        if live {
            DispatchAction::Complete
        } else if terminal {
            DispatchAction::Finalize
        } else {
            DispatchAction::Retry
        }
    }

    /// The step for a job whose match was not found: retry while its grace
    /// remains, and once its attempts are used up or its grace period has
    /// passed, mark the match `UNKNOWN`.
    pub fn not_found_step(attempt_count: i32, max_attempts: i32, grace_passed: bool) -> (r: NotFoundAction)
        ensures
            r == if attempt_count >= max_attempts || grace_passed {
                NotFoundAction::MarkUnknown { state: InternalState::Unknown }
            } else {
                NotFoundAction::Retry
            },
    {
        if Self::recovery_expired(attempt_count, max_attempts, grace_passed) {
            NotFoundAction::MarkUnknown { state: InternalState::Unknown }
        } else {
            NotFoundAction::Retry
        }
    }

    /// Whether a retried job has spent its grace: its attempts are used up
    /// or its grace period has passed.
    pub fn recovery_expired(attempt_count: i32, max_attempts: i32, grace_passed: bool) -> (r: bool)
        ensures
            r == (attempt_count >= max_attempts || grace_passed),
    {
        attempt_count >= max_attempts || grace_passed
    }
}

} // verus!
