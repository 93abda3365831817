use earnscore::domain::events::{canonical_json, payload_hash, EventType, NormalizedEvent};
use earnscore::domain::match_state::{
    admission_result, compare_event_order, is_monotonic, next_state, AdmissionEvidence,
    AdmissionResult, InternalState,
};
use earnscore::domain::odds::{normalize_decimal, OddsQuote};
use earnscore::json::{insert_member, json_int, Json};
use std::cmp::Ordering;

fn obj(pairs: Vec<(&str, Json)>) -> Json {
    let mut fields: Vec<(String, Json)> = Vec::new();
    for (k, v) in pairs {
        insert_member(&mut fields, k.to_string(), v);
    }
    Json::Object(fields)
}

fn text(x: &str) -> Json {
    Json::Str(x.to_string())
}

#[test]
fn admission_rejects_scheduled_and_unknown_terminal_rows() {
    assert_eq!(
        admission_result(&AdmissionEvidence::live_status("Scheduled"), false),
        AdmissionResult::RejectScheduled
    );
    assert_eq!(
        admission_result(&AdmissionEvidence::live_status("Finished"), false),
        AdmissionResult::RejectTerminalWithoutLiveHistory
    );
}

#[test]
fn score_is_sufficient_started_evidence() {
    let evidence = AdmissionEvidence {
        home_score: Some(0),
        ..Default::default()
    };
    assert_eq!(admission_result(&evidence, false), AdmissionResult::Admit);
}

#[test]
fn terminal_state_cannot_be_regressed() {
    assert!(!is_monotonic(Some(InternalState::Finished), InternalState::Live));
    assert!(is_monotonic(Some(InternalState::Live), InternalState::Finished));
}

#[test]
fn event_order_compares_incoming_event_against_current_row() {
    let event = NormalizedEvent::new(
        EventType::MatchScoreChanged,
        Some("m1".into()),
        Some(1),
        Some("2026-01-01T00:02:00Z".into()),
        "2026-01-01T00:02:01Z".into(),
        obj(vec![("score", json_int(2))]),
    );
    assert_eq!(
        compare_event_order(
            Some("2026-01-01T00:01:00Z"),
            Some("2026-01-01T00:01:01Z"),
            &event,
        ),
        Ordering::Greater
    );
}

#[test]
fn decimal_normalization_avoids_false_changes() {
    assert_eq!(normalize_decimal("+01.5000"), "1.5");
    assert_eq!(normalize_decimal("1.5"), "1.5");
    assert_eq!(normalize_decimal("bad"), "");
}

#[test]
fn identity_does_not_depend_on_bookmaker_names() {
    let quote = OddsQuote::new(
        "m",
        "any-bookmaker",
        "moneyline",
        "full",
        "home",
        None,
        "1.90",
        true,
        None,
        "r".into(),
        "h".into(),
        obj(vec![]),
    );
    assert!(quote.event_key().contains("any-bookmaker"));
}

#[test]
fn event_key_is_stable_when_object_keys_are_reordered() {
    let a = NormalizedEvent::new(
        EventType::MatchScoreChanged,
        Some("m1".into()),
        Some(1),
        Some("2026-01-01T00:00:00Z".into()),
        "received".into(),
        Json::Object(vec![
            ("b".to_string(), json_int(2)),
            ("a".to_string(), json_int(1)),
            ("chat".to_string(), text("discard")),
        ]),
    );
    let b = NormalizedEvent::new(
        EventType::MatchScoreChanged,
        Some("m1".into()),
        Some(1),
        Some("2026-01-01T00:00:00Z".into()),
        "received".into(),
        Json::Object(vec![
            ("a".to_string(), json_int(1)),
            ("b".to_string(), json_int(2)),
        ]),
    );
    assert_eq!(a.payload_hash, b.payload_hash);
    assert_eq!(a.event_key(), b.event_key());
}

#[test]
fn missing_timestamp_uses_match_id_fallback() {
    let event = NormalizedEvent::new(
        EventType::MatchDiscoveredLive,
        Some("m1".into()),
        Some(1),
        None,
        "received".into(),
        obj(vec![("live", Json::Bool(true))]),
    );
    assert!(event.event_key().contains("|m1|"));
}

#[test]
fn decimal_normalization_edge_cases() {
    assert_eq!(normalize_decimal("  2.000 "), "2");
    assert_eq!(normalize_decimal("0.50"), "0.5");
    assert_eq!(normalize_decimal("007"), "7");
    assert_eq!(normalize_decimal(""), "");
    assert_eq!(normalize_decimal("-1.5"), "-1.5");
    assert_eq!(normalize_decimal("-0.0"), "0");
    assert_eq!(normalize_decimal("1.2.3"), "");
    assert_eq!(normalize_decimal(normalize_decimal("+01.5000").as_str()), "1.5");
}

#[test]
fn quote_value_change_is_judged_after_normalization() {
    let quote = OddsQuote::new(
        " m ", "book", "moneyline", "full", "home", Some("2.50"), "1.50", true, None,
        "r".into(), "h".into(), obj(vec![]),
    );
    assert_eq!(quote.identity.match_id, "m");
    assert_eq!(quote.identity.line_value, "2.5");
    assert!(!quote.value_changed(Some("1.5000")));
    assert!(quote.value_changed(Some("1.6")));
    assert!(quote.value_changed(None));
    assert_eq!(quote.event_key(), "m|book|moneyline|full|home|2.5|m|1.5|h");
}

#[test]
fn terminal_states_accept_no_further_state() {
    assert!(!is_monotonic(Some(InternalState::Finalized), InternalState::Finished));
    assert!(!is_monotonic(Some(InternalState::Finished), InternalState::Live));
    assert!(is_monotonic(None, InternalState::Unknown));
    assert!(is_monotonic(Some(InternalState::DiscoveredLive), InternalState::HalfTime));
    assert!(!is_monotonic(Some(InternalState::Finishing), InternalState::Live));
    assert!(is_monotonic(Some(InternalState::Cancelled), InternalState::Cancelled));
}

#[test]
fn state_names_round_trip() {
    for s in [
        InternalState::DiscoveredLive,
        InternalState::Live,
        InternalState::HalfTime,
        InternalState::Paused,
        InternalState::Finishing,
        InternalState::Finished,
        InternalState::Cancelled,
        InternalState::Postponed,
        InternalState::Abandoned,
        InternalState::RecoveryPending,
        InternalState::Finalized,
        InternalState::Unknown,
    ] {
        assert_eq!(InternalState::from_storage(s.as_str()), Some(s));
    }
    assert_eq!(InternalState::from_storage("nonsense"), None);
    assert_eq!(InternalState::from_storage(" \"halftime\" "), Some(InternalState::HalfTime));
    assert_eq!(InternalState::from_storage("canceled"), Some(InternalState::Cancelled));
}

#[test]
fn admission_with_live_history_admits_terminal_rows() {
    assert_eq!(
        admission_result(&AdmissionEvidence::live_status("Finished"), true),
        AdmissionResult::Admit
    );
    assert_eq!(
        admission_result(&AdmissionEvidence::live_status("In-Play"), false),
        AdmissionResult::Admit
    );
    assert_eq!(
        admission_result(&AdmissionEvidence::default(), false),
        AdmissionResult::RejectNotStarted
    );
}

#[test]
fn event_order_without_timestamps_uses_receipt_time() {
    let event = NormalizedEvent::new(
        EventType::MatchScoreChanged,
        Some("m1".into()),
        Some(1),
        None,
        "2026-01-01T00:00:05Z".into(),
        obj(vec![]),
    );
    assert_eq!(
        compare_event_order(None, Some("2026-01-01T00:00:09Z"), &event),
        Ordering::Less
    );
}

#[test]
fn next_state_keeps_terminal_state_against_late_labels() {
    assert_eq!(
        next_state(Some(InternalState::Finished), EventType::MatchScoreChanged, Some("live")),
        InternalState::Finished
    );
    assert_eq!(
        next_state(None, EventType::MatchDiscoveredLive, None),
        InternalState::DiscoveredLive
    );
    assert_eq!(
        next_state(Some(InternalState::Live), EventType::MatchRemovedFromLive, None),
        InternalState::Finishing
    );
    assert_eq!(
        next_state(Some(InternalState::Live), EventType::MatchStatusChanged, Some("Full Time")),
        InternalState::Finished
    );
    assert_eq!(next_state(None, EventType::MatchScoreChanged, None), InternalState::Live);
}

#[test]
fn canonical_json_ignores_member_order() {
    let first = Json::Object(vec![
        ("z".to_string(), json_int(1)),
        ("a".to_string(), Json::Object(vec![("y".to_string(), json_int(2)), ("x".to_string(), Json::Null)])),
    ]);
    let second = Json::Object(vec![
        ("a".to_string(), Json::Object(vec![("x".to_string(), Json::Null), ("y".to_string(), json_int(2))])),
        ("z".to_string(), json_int(1)),
    ]);
    assert_eq!(canonical_json(&first), "{\"a\":{\"x\":null,\"y\":2},\"z\":1}");
    assert_eq!(canonical_json(&first), canonical_json(&second));
    assert_eq!(payload_hash(&first), payload_hash(&second));
}

#[test]
fn recovery_flow_returns_to_live_result_or_unknown() {
    assert!(is_monotonic(Some(InternalState::Live), InternalState::RecoveryPending));
    assert!(is_monotonic(Some(InternalState::RecoveryPending), InternalState::Live));
    assert!(is_monotonic(Some(InternalState::RecoveryPending), InternalState::Unknown));
    assert!(is_monotonic(Some(InternalState::RecoveryPending), InternalState::Finished));
    assert!(is_monotonic(Some(InternalState::RecoveryPending), InternalState::Abandoned));
    assert!(!is_monotonic(Some(InternalState::Finished), InternalState::RecoveryPending));
}

#[test]
fn decimal_without_digits_stays_empty() {
    assert_eq!(normalize_decimal("."), "");
    assert_eq!(normalize_decimal("+."), "");
    assert_eq!(normalize_decimal("-."), "");
    assert_eq!(normalize_decimal(".5"), "0.5");
    assert_eq!(normalize_decimal("7."), "7");
    assert_eq!(normalize_decimal("-0.0"), "0");
}

#[test]
fn decimal_normalization_spells_each_number_once() {
    assert_eq!(normalize_decimal("01.50"), normalize_decimal("+1.5"));
    assert_eq!(normalize_decimal("1.5e0"), "");
    assert_ne!(normalize_decimal("1.5"), normalize_decimal("1.05"));
    assert_eq!(normalize_decimal("-0.00"), "0");
    assert_eq!(normalize_decimal("-000.0100"), "-0.01");
    assert_eq!(normalize_decimal("10"), "10");
    assert_ne!(normalize_decimal("10"), normalize_decimal("1"));
}

#[test]
fn state_names_read_back_quoted_and_lower_case() {
    for s in [InternalState::RecoveryPending, InternalState::DiscoveredLive, InternalState::Unknown] {
        assert_eq!(InternalState::from_storage(&format!("\"{}\"", s.as_str())), Some(s));
        assert_eq!(InternalState::from_storage(&s.as_str().to_ascii_lowercase()), Some(s));
    }
}
