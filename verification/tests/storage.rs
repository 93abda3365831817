use earnscore::recovery::Finalizer;
use earnscore::storage::repositories::stored_scores;
use earnscore::storage::repositories::quote_outbox_payload;
use earnscore::domain::events::{EventType, NormalizedEvent};
use earnscore::domain::match_state::{AdmissionEvidence, AdmissionResult, InternalState};
use earnscore::domain::odds::OddsQuote;
use earnscore::json::{insert_member, json_int, json_text, Json};
use earnscore::storage::backup::{
    compare_copy, sqlite_checks_verdict, temporary_file_name, verified_copy, Checksum,
};
use earnscore::storage::migration::{
    add_unmappable, classify_parsed_section, classify_section, legacy_odds_of_parse, column_named, fnv1a_hex, json_hash, legacy_provenance,
    legacy_state_label, next_archive_name, odds_marker, parse_legacy_odds, is_decimal_number,
    quote_identifier,
};
use earnscore::storage::repositories::{
    apply_quote, asset_outbox_payload, plan_event, event_gate, event_outcome, existing_match_is_live,
    fail_status, incident_rows_of, is_remote_url, is_stale, latest_state_history,
    plan_initial_detail_jobs, replace_all_placeholders, seconds_modifier, section_status,
    stat_rows_of, CurrentQuote, EventGate, EventPlan, HistoryRow, MutationOutcome, QuoteAction,
};

fn obj(pairs: Vec<(&str, Json)>) -> Json {
    let mut fields: Vec<(String, Json)> = Vec::new();
    for (k, v) in pairs {
        insert_member(&mut fields, k.to_string(), v);
    }
    Json::Object(fields)
}

fn text(x: &str) -> Json {
    Json::Str(x.to_string())
}

fn event(t: EventType, ts: Option<&str>, received: &str) -> NormalizedEvent {
    NormalizedEvent::new(
        t,
        Some("m".into()),
        Some(1),
        ts.map(|s| s.to_string()),
        received.into(),
        obj(vec![]),
    )
}

fn history(ts: Option<&str>, received: &str, state: InternalState) -> HistoryRow {
    HistoryRow {
        source_timestamp: ts.map(|s| s.to_string()),
        received_at: received.to_string(),
        payload_hash: "h".to_string(),
        state,
    }
}

fn quote(value: &str, ts: Option<&str>) -> OddsQuote {
    OddsQuote::new(
        "m", "book", "moneyline", "full", "home", None, value, true,
        ts.map(|s| s.to_string()), "2026-01-01T00:00:05Z".into(), "same-hash".into(), obj(vec![]),
    )
}

#[test]
fn terminal_match_refuses_later_match_events() {
    let live = AdmissionEvidence::live_status("Live");
    let e = event(EventType::MatchScoreChanged, None, "r");
    assert_eq!(event_gate(true, &e, true, &live, true), EventGate::Rejected(AdmissionResult::RejectTerminalImmutable));
    assert_eq!(event_gate(false, &e, true, &live, true), EventGate::Duplicate);
    assert_eq!(event_gate(true, &e, false, &live, false), EventGate::Proceed);
    let finished = AdmissionEvidence::live_status("Finished");
    assert_eq!(
        event_gate(true, &e, false, &finished, false),
        EventGate::Rejected(AdmissionResult::RejectTerminalWithoutLiveHistory)
    );
    assert_eq!(event_gate(true, &e, false, &finished, true), EventGate::Proceed);
    let feed = NormalizedEvent::new(EventType::FeedHeartbeat, None, Some(1), None, "r".into(), obj(vec![]));
    assert_eq!(event_gate(true, &feed, true, &live, false), EventGate::Recorded);
}

#[test]
fn missing_timestamp_uses_receipt_order_and_older_source_is_stale() {
    let older = history(None, "2026-01-01T00:00:09Z", InternalState::Live);
    let e = event(EventType::MatchScoreChanged, None, "2026-01-01T00:00:05Z");
    assert!(is_stale(&e, Some(&older)));
    let later = event(EventType::MatchScoreChanged, None, "2026-01-01T00:00:10Z");
    assert!(!is_stale(&later, Some(&older)));
    assert!(!is_stale(&e, None));
    assert_eq!(event_outcome(true, 0, false), MutationOutcome::Stale);
    assert_eq!(event_outcome(false, 2, true), MutationOutcome::Stale);
    assert_eq!(event_outcome(false, 0, true), MutationOutcome::Accepted);
}

#[test]
fn latest_history_row_is_the_latest_in_event_order() {
    let rows = vec![
        history(Some("2026-01-01T00:00:03Z"), "a", InternalState::Live),
        history(Some("2026-01-01T00:00:09Z"), "b", InternalState::HalfTime),
        history(Some("2026-01-01T00:00:05Z"), "c", InternalState::Live),
    ];
    assert_eq!(latest_state_history(&rows), Some(1));
    assert_eq!(latest_state_history(&vec![]), None);
}

#[test]
fn odds_history_keeps_changed_quote_and_ignores_older_quote() {
    let current = CurrentQuote {
        odds_value: "1.5".into(),
        source_timestamp: None,
        received_at: "2026-01-01T00:00:05Z".into(),
        payload_hash: "same-hash".into(),
    };
    assert_eq!(apply_quote(&quote("1.50", None), Some(&current)), QuoteAction::Unchanged);
    assert_eq!(apply_quote(&quote("2.0", None), Some(&current)), QuoteAction::Record);
    let newer = CurrentQuote { received_at: "2026-01-01T00:00:09Z".into(), ..current };
    assert_eq!(apply_quote(&quote("3.0", None), Some(&newer)), QuoteAction::Stale);
    assert_eq!(apply_quote(&quote("3.0", None), None), QuoteAction::Record);
}

#[test]
fn previous_live_evidence_comes_from_row_or_history() {
    assert!(existing_match_is_live(Some(1), &vec![]));
    assert!(!existing_match_is_live(Some(0), &vec!["FINISHED".into()]));
    assert!(existing_match_is_live(None, &vec!["FINISHED".into(), "\"LIVE\"".into()]));
    assert!(!existing_match_is_live(None, &vec![]));
}

#[test]
fn section_rows_and_statuses() {
    assert_eq!(fail_status(true), "FAILED_PERMANENT");
    assert_eq!(fail_status(false), "FAILED_RETRYABLE");
    assert_eq!(section_status(true), "EMPTY_CONFIRMED");
    assert_eq!(seconds_modifier(-30), "+-30 seconds");
    assert_eq!(plan_initial_detail_jobs(&vec!["overview".into()]).len(), 5);
    let incidents = Json::Array(vec![obj(vec![("type", text("goal"))]), Json::Null]);
    let rows = incident_rows_of(&incidents);
    assert_eq!(rows.len(), 2);
    assert_eq!(rows[0].incident_key, "incident-0");
    assert_eq!(rows[0].incident_json, "{\"type\":\"goal\"}");
    assert_eq!(rows[1].incident_json, "null");
    let stats = stat_rows_of(&obj(vec![("possession", Json::Array(vec![json_int(55), json_int(45)]))]));
    assert_eq!(stats.len(), 2);
    assert_eq!(
        (stats[1].stat_key.as_str(), stats[1].side.as_str(), stats[1].value_json.as_str()),
        ("possession", "away", "45")
    );
    let other = stat_rows_of(&obj(vec![("corners", json_int(3)), ("x", Json::Array(vec![json_int(1)]))]));
    assert_eq!(other.len(), 1);
    assert_eq!((other[0].side.as_str(), other[0].value_json.as_str()), ("none", "3"));
}

#[test]
fn placeholders_are_replaced_everywhere() {
    let mut v = obj(vec![
        ("logo", text("asset-x")),
        ("list", Json::Array(vec![text("asset-x"), text("keep")])),
    ]);
    replace_all_placeholders(&mut v, &vec![("asset-x".to_string(), "id-1".to_string())]);
    assert_eq!(json_text(&v), "{\"list\":[\"asset-x\",\"keep\"],\"logo\":\"id-1\"}");
    let mut nested = obj(vec![(
        "rows",
        Json::Array(vec![obj(vec![("logo", text("https://img/x.png"))])]),
    )]);
    let url = "https://img/x.png".to_string();
    let placeholder = earnscore::detail::extractor::placeholder_for(&url);
    let mut by_placeholder = obj(vec![("logo", text(&placeholder))]);
    let reps = vec![(url, "id-2".to_string())];
    replace_all_placeholders(&mut nested, &reps);
    replace_all_placeholders(&mut by_placeholder, &reps);
    assert_eq!(json_text(&nested), "{\"rows\":[{\"logo\":\"id-2\"}]}");
    assert_eq!(json_text(&by_placeholder), "{\"logo\":\"id-2\"}");
    assert!(is_remote_url("https://x"));
    assert!(!is_remote_url("asset-x"));
    let p = asset_outbox_payload("a", "h", "k", "image/png", 10, Some(2), None);
    assert_eq!(
        json_text(&p),
        "{\"asset_id\":\"a\",\"byte_size\":10,\"content_hash\":\"h\",\"height\":null,\"mime_type\":\"image/png\",\"storage_key\":\"k\",\"width\":2}"
    );
}

#[test]
fn migration_helpers() {
    assert_eq!(quote_identifier("a\"b"), "\"a\"\"b\"");
    assert_eq!(fnv1a_hex(b""), "cbf29ce484222325");
    assert_eq!(fnv1a_hex(b"abc"), "e71fa2190541574b");
    assert_eq!(json_hash("{\"a\":1}"), "9c3e82dd6fcae8b1");
    assert_eq!(legacy_state_label(8, true), "FINISHED");
    assert_eq!(legacy_state_label(2, true), "LIVE");
    assert_eq!(legacy_state_label(1, false), "LEGACY_IMPORTED");
    assert_eq!(legacy_provenance("odds"), "legacy:match_details.odds");
    assert!(column_named("Raw_Payload", "raw_payload"));
    assert!(!column_named("raw", "raw_payload"));
    assert_eq!(
        next_archive_name("matches", &vec!["matches_legacy_v1".into()]).as_deref(),
        Some("matches_legacy_v1_2")
    );
    assert_eq!(next_archive_name("t", &vec![]).as_deref(), Some("t_legacy_v1"));
    assert_eq!(odds_marker("m", 0, false, true).as_deref(), Some("m:odds:unmappable"));
    assert_eq!(odds_marker("m", 0, false, false).as_deref(), Some("m:odds:no-parseable-record"));
    assert_eq!(odds_marker("m", 1, false, true), None);
    assert!(is_decimal_number("1.5e3"));
    assert!(!is_decimal_number("-inf"));
    assert!(!is_decimal_number("NaN"));
    assert!(!is_decimal_number("infinity"));
    assert!(!is_decimal_number("1.5x"));
    let mut set = vec!["b".to_string()];
    add_unmappable(&mut set, "a".into());
    add_unmappable(&mut set, "b".into());
    assert_eq!(set, vec!["a".to_string(), "b".to_string()]);
}

#[test]
fn legacy_sections_are_classified() {
    let empty = classify_parsed_section(Some("  "), "stats", &Err("unused".into()));
    assert_eq!(empty.status, "EMPTY");
    assert!(empty.is_empty);
    assert_eq!(empty.data_json.as_deref(), Some("null"));
    let bad = classify_parsed_section(Some("{oops"), "stats", &Err("expected value".into()));
    assert!(bad.is_unparseable);
    let hollow = classify_parsed_section(Some("[]"), "stats", &Ok(Json::Array(vec![])));
    assert!(hollow.is_empty);
    assert_eq!(hollow.content_hash, json_hash("[]"));
}

#[test]
fn legacy_odds_records_are_recovered() {
    let record = obj(vec![
        ("bookmaker", text("b1")),
        ("market", text("1x2")),
        ("selection", text("home")),
        ("odds_value", text("1.9")),
    ]);
    let incomplete = obj(vec![("bookmaker", text("b2"))]);
    let (odds, had) = legacy_odds_of_parse(&Ok(Json::Array(vec![record, incomplete])));
    assert!(had);
    assert_eq!(odds.len(), 1);
    assert_eq!(odds[0].bookmaker_id, "b1");
    assert_eq!(odds[0].market_type, "1x2");
    assert_eq!(odds[0].odds_value, "1.9");
    let (none, had_none) = legacy_odds_of_parse(&Err("x".into()));
    assert!(none.is_empty() && !had_none);
}

#[test]
fn checksum_does_not_depend_on_how_a_file_is_read() {
    let mut whole = Checksum::new();
    whole.absorb(b"hello world");
    let mut parts = Checksum::new();
    parts.absorb(b"hello");
    parts.absorb(b"");
    parts.absorb(b" world");
    assert_eq!(whole.text(), parts.text());
    assert_eq!(whole.text(), "779a65e7023cd2e7");
    assert_eq!(whole.size, 11);
    assert_eq!(Checksum::new().text(), "cbf29ce484222325");
}

#[test]
fn backup_checks() {
    assert!(compare_copy(3, "x", 3, "x").is_ok());
    assert_eq!(
        compare_copy(3, "x", 2, "y").err().unwrap(),
        "size/checksum mismatch: source=3/x, copy=2/y"
    );
    assert!(sqlite_checks_verdict("OK", false).is_ok());
    assert_eq!(
        sqlite_checks_verdict("corrupt", false).err().unwrap(),
        "SQLite integrity_check returned corrupt"
    );
    assert_eq!(
        sqlite_checks_verdict("ok", true).err().unwrap(),
        "SQLite foreign_key_check returned violations"
    );
    let v = verified_copy(7, "c".into());
    assert!(v.integrity_ok);
    assert_eq!(temporary_file_name("db.sqlite", "42"), ".db.sqlite.tmp-42");
}

#[test]
fn replayed_quote_is_unchanged_after_it_was_recorded() {
    let q = quote(" 2.50 ", Some("2026-01-01T00:00:07Z"));
    assert_eq!(apply_quote(&q, None), QuoteAction::Record);
    let stored = CurrentQuote {
        odds_value: q.odds_value.clone(),
        source_timestamp: q.source_timestamp.clone(),
        received_at: q.received_at.clone(),
        payload_hash: q.payload_hash.clone(),
    };
    assert_eq!(apply_quote(&q, Some(&stored)), QuoteAction::Unchanged);
}

#[test]
fn legacy_odds_without_a_numeric_price_are_not_converted() {
    let record = obj(vec![
        ("bookmaker", text("b1")),
        ("market", text("1x2")),
        ("selection", text("home")),
        ("odds_value", text("n/a")),
    ]);
    let (odds, had) = legacy_odds_of_parse(&Ok(Json::Array(vec![record])));
    assert!(had);
    assert!(odds.is_empty());
}

#[test]
fn unparseable_detail_keeps_no_data() {
    let bad = classify_parsed_section(Some("[1,"), "lineups", &Err("EOF while parsing".into()));
    assert_eq!(bad.status, "UNPARSEABLE");
    assert!(bad.is_unparseable && !bad.is_empty);
    assert!(bad.data_json.is_none());
    assert_eq!(bad.error.as_deref(), Some("legacy lineups JSON: EOF while parsing"));
}

#[test]
fn legacy_odds_with_non_finite_prices_are_not_converted() {
    for price in ["NaN", "inf", "-Infinity"] {
        let record = obj(vec![
            ("bookmaker", text("b1")),
            ("market", text("1x2")),
            ("selection", text("home")),
            ("odds_value", text(price)),
        ]);
        let (odds, had) = legacy_odds_of_parse(&Ok(Json::Array(vec![record])));
        assert!(had);
        assert!(odds.is_empty());
    }
}

#[test]
fn initial_plan_is_every_section_not_done_in_order() {
    assert_eq!(
        plan_initial_detail_jobs(&vec![]),
        vec!["overview", "odds", "h2h", "lineups", "stats", "incidents"]
    );
    assert_eq!(
        plan_initial_detail_jobs(&vec!["odds".into(), "stats".into(), "odds".into()]),
        vec!["overview", "h2h", "lineups", "incidents"]
    );
}

#[test]
fn applying_events_older_newer_and_replayed() {
    let latest = history(Some("2"), "2", InternalState::Live);
    let older = event(EventType::MatchScoreChanged, Some("1"), "3");
    assert_eq!(
        plan_event(EventGate::Proceed, &older, Some(&latest)),
        EventPlan::Apply { stale: true, plan_jobs: false }
    );
    assert_eq!(event_outcome(true, 0, false), MutationOutcome::Stale);
    let newer = event(EventType::MatchScoreChanged, None, "4");
    assert_eq!(
        plan_event(EventGate::Proceed, &newer, Some(&latest)),
        EventPlan::Apply { stale: false, plan_jobs: false }
    );
    let discovered = event(EventType::MatchDiscoveredLive, Some("5"), "5");
    assert_eq!(
        plan_event(EventGate::Proceed, &discovered, Some(&latest)),
        EventPlan::Apply { stale: false, plan_jobs: true }
    );
    assert_eq!(
        plan_event(EventGate::Duplicate, &newer, Some(&latest)),
        EventPlan::Finish(MutationOutcome::Duplicate)
    );
    let odds_old = event(EventType::MatchOddsChanged, Some("1"), "3");
    assert_eq!(
        plan_event(EventGate::Proceed, &odds_old, Some(&latest)),
        EventPlan::Apply { stale: false, plan_jobs: false }
    );
}

#[test]
fn legacy_columns_are_parsed_and_classified_from_their_text() {
    let bad = classify_section(Some(" {oops "), "stats");
    assert_eq!(bad.status, "UNPARSEABLE");
    assert!(bad.error.as_deref().unwrap().starts_with("legacy stats JSON: "));
    assert_eq!(classify_section(Some(" [] "), "stats").status, "EMPTY");
    assert_eq!(classify_section(None, "stats").data_json.as_deref(), Some("null"));
    let good = classify_section(Some(" [1] "), "stats");
    assert_eq!(good.status, "COMPLETED");
    assert_eq!(good.data_json.as_deref(), Some("[1]"));
    let (odds, had) = parse_legacy_odds(
        r#"[{"bookmaker":"b1","market":"1x2","selection":"home","odds_value":"1.9"},{"bookmaker":"b2"}]"#,
    );
    assert!(had);
    assert_eq!(odds.len(), 1);
    assert_eq!(odds[0].odds_value, "1.9");
    let (none, had_none) = parse_legacy_odds("not json");
    assert!(none.is_empty() && !had_none);
}

#[test]
fn stored_scores_parse_or_fall_back() {
    assert_eq!(json_text(&stored_scores("[1,2]")), "[1,2]");
    assert_eq!(json_text(&stored_scores("oops")), "[]");
    let (_, _, text) = Finalizer::stored_period_scores("[3]", "bad");
    assert_eq!(text, "{\"away_scores\":null,\"home_scores\":[3]}");
}

#[test]
fn quote_outbox_payload_names_identity_and_price() {
    let q = quote("1.50", None);
    assert_eq!(
        json_text(&quote_outbox_payload(&q)),
        "{\"identity\":{\"bookmaker_id\":\"book\",\"line_value\":\"\",\"market_type\":\"moneyline\",\"match_id\":\"m\",\"period\":\"full\",\"selection_key\":\"home\"},\"is_live\":true,\"odds_value\":\"1.5\",\"payload\":{},\"payload_hash\":\"same-hash\",\"received_at\":\"2026-01-01T00:00:05Z\",\"source_timestamp\":null}"
    );
}
