use earnscore::domain::events::{EventType, NormalizedEvent};
use earnscore::domain::match_state::AdmissionEvidence;
use earnscore::json::{json_int, json_text, Json};
use earnscore::recovery::finalizer::column_name_of;
use earnscore::domain::match_state::InternalState;
use earnscore::recovery::manager::{DispatchAction, NotFoundAction, Reconciliation};
use earnscore::recovery::{
    FinalizationError, FinalizationPhase, Finalizer, RecoveryManager, RecoveryOutcome,
};

fn event() -> NormalizedEvent {
    NormalizedEvent::new(
        EventType::MatchFinished,
        Some("final-1".into()),
        Some(1),
        None,
        "r".into(),
        Json::Null,
    )
}

#[test]
fn finalization_version_and_phase_lock_are_idempotent() {
    assert!(Finalizer::may_begin(FinalizationPhase::Final, false).is_ok());
    match Finalizer::may_begin(FinalizationPhase::Final, true) {
        Err(FinalizationError::NotReady(m)) => {
            assert_eq!(m, "match already finalized; use an audited MANUAL version")
        }
        _ => panic!("a second FINAL version must be refused"),
    }
    assert!(Finalizer::may_begin(FinalizationPhase::Manual, true).is_ok());
    assert!(Finalizer::lock_verdict(1, "final-1").is_ok());
    match Finalizer::lock_verdict(0, "final-1") {
        Err(FinalizationError::Busy(m)) => assert_eq!(m, "phase already running for match final-1"),
        _ => panic!("a running phase must block"),
    }
}

#[test]
fn finalization_completes_once_after_all_sections() {
    let v = Finalizer::new_version("final-1", "test", 0, FinalizationPhase::Final);
    assert_eq!((v.version, v.phase.as_str()), (1, "FINAL"));
    assert_eq!(v.match_id, "final-1");
    assert!(!Finalizer::ready_to_complete(1, true, "FINAL"));
    assert!(!Finalizer::ready_to_complete(0, false, "FINAL"));
    assert!(Finalizer::ready_to_complete(0, true, "FINAL"));
    assert!(Finalizer::ready_to_complete(0, false, "MANUAL"));
    assert_eq!(Finalizer::finalized_marker(1), "finalized-1");
    let (section, _hash, text) = Finalizer::period_scores_section(
        Json::Array(vec![json_int(1)]),
        Json::Array(vec![json_int(2)]),
    );
    assert_eq!(json_text(&section), text);
    assert_eq!(text, "{\"away_scores\":[2],\"home_scores\":[1]}");
    assert_eq!(column_name_of("  raw_payload TEXT NOT NULL"), "raw_payload");
}

#[test]
fn recovery_outcomes_are_reconciled() {
    assert!(matches!(
        RecoveryManager::reconcile(RecoveryOutcome::NotFound),
        Reconciliation::RetryOrExpire
    ));
    let live = RecoveryOutcome::StillLive { event: event(), evidence: AdmissionEvidence::default() };
    assert!(matches!(RecoveryManager::reconcile(live), Reconciliation::ApplyAndComplete { .. }));
    let done = RecoveryOutcome::Finished { event: event(), evidence: AdmissionEvidence::default() };
    match RecoveryManager::reconcile(done) {
        Reconciliation::ApplyAndFinalize { event, .. } => {
            assert_eq!(event.match_id.as_deref(), Some("final-1"))
        }
        _ => panic!("a finished match is finalized"),
    }
    assert_eq!(RecoveryManager::dispatch_action(true, true), DispatchAction::Complete);
    assert_eq!(RecoveryManager::dispatch_action(false, true), DispatchAction::Finalize);
    assert_eq!(RecoveryManager::dispatch_action(false, false), DispatchAction::Retry);
    assert!(RecoveryManager::recovery_expired(5, 5, false));
    assert!(RecoveryManager::recovery_expired(1, 5, true));
    assert!(!RecoveryManager::recovery_expired(1, 5, false));
}

#[test]
fn recovery_manager_defaults() {
    let m = RecoveryManager::new("db".into(), "ds".into());
    assert_eq!(m.config.max_attempts, 5);
    assert!(m.worker_id.starts_with("recovery-"));
    assert_eq!(m.worker_id.len(), "recovery-".len() + 36);
    let other = RecoveryManager::new("db".into(), "ds".into());
    assert_ne!(m.worker_id, other.worker_id);
}

#[test]
fn not_found_retries_until_grace_is_spent_then_unknown() {
    assert_eq!(RecoveryManager::not_found_step(1, 5, false), NotFoundAction::Retry);
    assert_eq!(
        RecoveryManager::not_found_step(5, 5, false),
        NotFoundAction::MarkUnknown { state: InternalState::Unknown }
    );
    assert_eq!(
        RecoveryManager::not_found_step(2, 5, true),
        NotFoundAction::MarkUnknown { state: InternalState::Unknown }
    );
}
