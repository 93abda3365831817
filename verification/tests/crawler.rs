use earnscore::crawler::sync::upload_payload;
use earnscore::json::json_text;
use earnscore::crawler::adapters::{
    detail_target, list_target, BasketballAdapter, FootballAdapter, OwnedTarget, SportAdapter,
    TargetRole,
};
use earnscore::crawler::cli::{
    clamp_interval, detail_interval_from_setting, parse_detail_concurrency, parse_i64,
    parse_ready_delay_ms, parse_u64, sync_interval_from_setting,
};
use earnscore::crawler::rows::{matches_to_hide, live_id_list, detail_url};
use earnscore::crawler::snapshot::{
    decode_and_validate_detail, decode_and_validate_snapshot, is_live_status,
    is_terminal_status_text, match_is_currently_live, parse_list_or_dict, sanitize_json,
    DetailDecoderError, ExtractionError,
};
use earnscore::crawler::sync::{
    batch_has_work, captured_at, claim_lease, next_backoff_secs, rows_to_acknowledge,
    sync_configured, sync_pause_ms, upload_attempt_allowed, verify_db_identity,
};
use earnscore::json::{get_member, insert_member, json_as_str, json_int, Json};
use std::time::Instant;

fn obj(pairs: Vec<(&str, Json)>) -> Json {
    let mut fields: Vec<(String, Json)> = Vec::new();
    for (k, v) in pairs {
        insert_member(&mut fields, k.to_string(), v);
    }
    Json::Object(fields)
}

fn text(x: &str) -> Json {
    Json::Str(x.to_string())
}

fn str_at<'a>(j: &'a Json, key: &str) -> Option<&'a str> {
    get_member(j, key).and_then(json_as_str).map(|s| s.as_str())
}

fn live_match(id: &str, status: i64) -> Json {
    obj(vec![
        ("id", text(id)),
        ("competition", obj(vec![("id", text("c1"))])),
        ("homeTeam", obj(vec![("id", text("t1"))])),
        ("awayTeam", obj(vec![("id", text("t2"))])),
        ("statusId", json_int(status)),
    ])
}

fn snapshot(sport: i64, matches: Vec<Json>, teams: Vec<Json>, comps: Vec<Json>) -> Json {
    obj(vec![
        ("activeFilter", text("live")),
        ("sportId", json_int(sport)),
        ("matches", Json::Array(matches)),
        ("teams", Json::Array(teams)),
        ("competitions", Json::Array(comps)),
    ])
}

#[test]
fn source_extractors_filter_to_live_matches_and_relations() {
    for js in [
        FootballAdapter.extract_state_js(),
        BasketballAdapter.extract_state_js(),
    ] {
        assert!(js.contains(".filter(isLiveMatch)"));
        assert!(js.contains("teamIds.has"));
        assert!(js.contains("competitionIds.has"));
        assert!(js.contains("full[\\s-]*time"));
        assert!(js.contains("timestamp: Date.now()"));
    }
}

#[test]
fn target_ownership_different_sport_adapters_have_different_urls() {
    let foot = FootballAdapter;
    let bask = BasketballAdapter;
    assert_ne!(foot.target_url(), bask.target_url());
    assert_ne!(foot.sport_id(), bask.sport_id());
    assert!(!foot.matches_url("https://m.aiscore.com/basketball"));
    assert!(!bask.matches_url("https://m.aiscore.com/"));
}

#[test]
fn target_ownership_owned_target_fields() {
    let ot = OwnedTarget {
        target_id: "tab-abc".to_string(),
        websocket_url: "ws://127.0.0.1:9223/devtools/page/tab-abc".to_string(),
        role: TargetRole::List,
        sport_id: 1,
        requested_match_id: None,
        created_at: Instant::now(),
    };
    assert_eq!(ot.target_id, "tab-abc");
    assert_eq!(ot.role, TargetRole::List);
    assert_eq!(ot.sport_id, 1);
    assert!(ot.requested_match_id.is_none());
}

#[test]
fn target_ownership_detail_target_carries_match_id() {
    let ot = OwnedTarget {
        target_id: "tab-detail-1".to_string(),
        websocket_url: "ws://127.0.0.1:9223/devtools/page/tab-detail-1".to_string(),
        role: TargetRole::Detail,
        sport_id: 2,
        requested_match_id: Some("bask-match-1".to_string()),
        created_at: Instant::now(),
    };
    assert_eq!(ot.role, TargetRole::Detail);
    assert_eq!(ot.requested_match_id.as_deref(), Some("bask-match-1"));
}

#[test]
fn crawler_cli_zero_delay_rejected() {
    assert!(parse_ready_delay_ms("0").is_err());
    assert!(parse_ready_delay_ms("1").is_ok());
    assert!(parse_ready_delay_ms("30000").is_ok());
    assert!(parse_ready_delay_ms("30001").is_err());
}

#[test]
fn crawler_cli_concurrency_bounds() {
    assert!(parse_detail_concurrency("0").is_err());
    assert!(parse_detail_concurrency("1").is_ok());
    assert!(parse_detail_concurrency("10").is_ok());
    assert!(parse_detail_concurrency("11").is_err());
}

#[test]
fn target_ownership_role_equality() {
    assert_eq!(TargetRole::List, TargetRole::List);
    assert_eq!(TargetRole::Detail, TargetRole::Detail);
    assert_ne!(TargetRole::List, TargetRole::Detail);
}

#[test]
fn terminal_status_label_overrides_live_numeric_status() {
    let live = obj(vec![("statusId", json_int(2)), ("statusText", text("First Half"))]);
    let full_time = obj(vec![("statusId", json_int(2)), ("statusText", text("Full Time"))]);
    let nested_ft = obj(vec![
        ("statusId", json_int(2)),
        ("status", obj(vec![("id", json_int(2)), ("name", text("FT"))])),
    ]);
    assert!(match_is_currently_live(&live, 1));
    assert!(!match_is_currently_live(&full_time, 1));
    assert!(!match_is_currently_live(&nested_ft, 1));
}

#[test]
fn test_chat_exclusion_recursive() {
    let mut sample = obj(vec![
        ("id", text("match-1")),
        (
            "chat",
            obj(vec![
                ("room", text("123")),
                ("messages", Json::Array(vec![text("a"), text("b")])),
            ]),
        ),
        ("messageRoom", text("room-abc")),
        (
            "homeTeam",
            obj(vec![("name", text("Arsenal")), ("chat_status", text("none"))]),
        ),
        ("status", text("active")),
    ]);
    sanitize_json(&mut sample);
    assert_eq!(str_at(&sample, "id"), Some("match-1"));
    assert_eq!(str_at(&sample, "status"), Some("active"));
    assert!(get_member(&sample, "chat").is_none());
    assert!(get_member(&sample, "messageRoom").is_none());
    let home = get_member(&sample, "homeTeam").unwrap();
    assert_eq!(str_at(home, "name"), Some("Arsenal"));
    assert!(get_member(home, "chat_status").is_none());
}

#[test]
fn readiness_null_state_produces_filter_not_live_or_json_error() {
    let result = decode_and_validate_snapshot(&Json::Null, 1);
    assert!(matches!(result.err(), Some(ExtractionError::FilterNotLive)));
}

#[test]
fn sync_generation_empty_live_snapshot_records_ready_sport() {
    let snap = snapshot(2, vec![], vec![], vec![]);
    let decoded = decode_and_validate_snapshot(&snap, 2).unwrap();
    assert!(decoded.matches.is_empty());
}

#[test]
fn snapshot_rejects_other_sport_and_missing_relations() {
    let snap = snapshot(
        1,
        vec![live_match("m1", 2)],
        vec![obj(vec![("id", text("t1"))])],
        vec![obj(vec![("id", text("c1"))])],
    );
    match decode_and_validate_snapshot(&snap, 2) {
        Err(ExtractionError::CrossSportMismatch { expected, found }) => {
            assert_eq!((expected, found), (2, 1));
        }
        _ => panic!("expected a sport mismatch"),
    }
    match decode_and_validate_snapshot(&snap, 1) {
        Err(ExtractionError::IncompleteRelations { missing_competitions, missing_teams }) => {
            assert!(missing_competitions.is_empty());
            assert_eq!(missing_teams, vec!["t2".to_string()]);
        }
        _ => panic!("expected missing relations"),
    }
    let err = decode_and_validate_snapshot(&snap, 1).err().unwrap();
    assert_eq!(
        err.message(),
        "incomplete_relations: missing_competitions=[], missing_teams=[\"t2\"]"
    );
}

#[test]
fn snapshot_with_complete_relations_is_accepted() {
    let snap = snapshot(
        1,
        vec![live_match("m1", 2)],
        vec![obj(vec![("id", text("t1"))]), obj(vec![("id", text("t2"))])],
        vec![obj(vec![("id", text("c1"))])],
    );
    let decoded = decode_and_validate_snapshot(&snap, 1).unwrap();
    assert_eq!(decoded.matches.len(), 1);
    assert_eq!(decoded.teams.len(), 2);
    assert_eq!(decoded.sport_id, 1);
    assert_eq!(decoded.active_filter, "live");
}

#[test]
fn snapshot_field_errors_name_the_field() {
    let snap = snapshot(1, vec![obj(vec![("id", text(""))])], vec![], vec![]);
    match decode_and_validate_snapshot(&snap, 1) {
        Err(ExtractionError::MissingRequiredField(f)) => assert_eq!(f, "match.id"),
        _ => panic!("expected a missing field"),
    }
    let bad = obj(vec![
        ("activeFilter", text("live")),
        ("sportId", json_int(1)),
        ("matches", text("oops")),
    ]);
    match decode_and_validate_snapshot(&bad, 1) {
        Err(ExtractionError::JsonError(m)) => assert_eq!(m, "Expected array or dictionary"),
        _ => panic!("expected a json error"),
    }
}

#[test]
fn list_or_dict_accepts_null_arrays_and_objects() {
    assert_eq!(parse_list_or_dict(&Json::Null).ok().unwrap().len(), 0);
    let o = obj(vec![("a", json_int(1)), ("b", json_int(2))]);
    assert_eq!(parse_list_or_dict(&o).ok().unwrap().len(), 2);
    assert!(parse_list_or_dict(&Json::Bool(true)).is_err());
}

#[test]
fn live_status_codes_per_sport() {
    assert!(is_live_status(1, 2));
    assert!(is_live_status(1, 7));
    assert!(!is_live_status(1, 8));
    assert!(!is_live_status(1, 9));
    assert!(is_live_status(2, 9));
    assert!(!is_live_status(3, 2));
    assert!(is_terminal_status_text("  Full-Time "));
    assert!(is_terminal_status_text("AET"));
    assert!(is_terminal_status_text("Match ended"));
    assert!(!is_terminal_status_text("2nd half"));
}

#[test]
fn detail_decoder_checks_match_and_sport() {
    let d = obj(vec![("matchId", text("m1")), ("sportId", json_int(1)), ("chat", text("x"))]);
    match decode_and_validate_detail(&d, "m2", 1) {
        Err(DetailDecoderError::MatchIdMismatch { expected, found }) => {
            assert_eq!((expected.as_str(), found.as_str()), ("m2", "m1"));
        }
        _ => panic!("expected a match id mismatch"),
    }
    match decode_and_validate_detail(&d, "m1", 2) {
        Err(DetailDecoderError::SportIdMismatch { expected, found }) => {
            assert_eq!((expected, found), (2, 1));
        }
        _ => panic!("expected a sport mismatch"),
    }
    let ok = decode_and_validate_detail(&d, "m1", 1).ok().unwrap();
    assert!(get_member(&ok, "chat").is_none());
    assert!(matches!(
        decode_and_validate_detail(&obj(vec![]), "m1", 1),
        Err(DetailDecoderError::EmptyMatchId)
    ));
}

#[test]
fn cli_numbers_follow_integer_parsing() {
    assert_eq!(parse_u64("+42"), Some(42));
    assert_eq!(parse_u64("-1"), None);
    assert_eq!(parse_u64("18446744073709551616"), None);
    assert_eq!(parse_i64("-17"), Some(-17));
    assert_eq!(parse_i64(""), None);
    assert_eq!(
        parse_ready_delay_ms("abc").err().unwrap(),
        "'abc' is not a valid number"
    );
    assert_eq!(sync_interval_from_setting(Some("0")), 1);
    assert_eq!(sync_interval_from_setting(Some("90")), 60);
    assert_eq!(sync_interval_from_setting(Some("x")), 5);
    assert_eq!(sync_interval_from_setting(None), 5);
    assert_eq!(clamp_interval(30), 30);
    assert_eq!(detail_interval_from_setting(Some("-5")), -5);
    assert_eq!(detail_interval_from_setting(None), 60);
}

#[test]
fn lease_is_exclusive_until_it_expires() {
    assert_eq!(claim_lease("", "client-a", 1000, None), Some(1045));
    assert_eq!(claim_lease("client-a", "client-b", 1000, Some("1045")), None);
    assert_eq!(claim_lease("client-a", "client-a", 1000, Some("1045")), Some(1045));
    assert_eq!(claim_lease("client-a", "client-b", 1046, Some("1045")), Some(1091));
    assert_eq!(claim_lease("client-a", "client-b", 1, Some("junk")), Some(46));
}

#[test]
fn sync_decisions() {
    assert!(sync_configured("https://w", "token", "ds"));
    assert!(!sync_configured("", "token", "ds"));
    assert!(batch_has_work(false, 0, 0, 1, 0));
    assert!(!batch_has_work(false, 0, 0, 0, 0));
    assert!(batch_has_work(true, 0, 0, 0, 0));
    assert_eq!(next_backoff_secs(5), 10);
    assert_eq!(sync_pause_ms(true, false, 5), 250);
    assert_eq!(sync_pause_ms(false, false, 5), 300000);
    let ids = vec!["a".to_string(), "b".to_string(), "c".to_string()];
    let stored = vec!["c".to_string(), "a".to_string()];
    assert_eq!(rows_to_acknowledge(&ids, &stored), vec![0, 2]);
    assert!(verify_db_identity(true, Some((1, 2)), Some((1, 2)), Some("ds"), "ds"));
    assert!(!verify_db_identity(true, Some((1, 2)), Some((1, 3)), Some("ds"), "ds"));
    assert!(!verify_db_identity(false, Some((1, 2)), Some((1, 2)), Some("ds"), "ds"));
}

#[test]
fn absent_live_matches_are_hidden_and_present_ones_kept() {
    let matches = vec![live_match("m1", 2), live_match("m2", 8)];
    assert_eq!(live_id_list(&matches, 1), vec!["m1".to_string()]);
    let previous = vec!["m1".to_string(), "m2".to_string(), "m3".to_string()];
    assert_eq!(
        matches_to_hide(&matches, 1, &previous),
        vec!["m2".to_string(), "m3".to_string()]
    );
}

#[test]
fn tab_records_and_detail_urls() {
    let t = list_target("tab".into(), "ws://x".into(), 1, Instant::now());
    assert_eq!(t.role, TargetRole::List);
    assert!(t.requested_match_id.is_none());
    let d = detail_target("tab2".into(), "ws://y".into(), "m9".into(), 2, Instant::now());
    assert_eq!(d.role, TargetRole::Detail);
    assert_eq!(d.requested_match_id.as_deref(), Some("m9"));
    assert!(FootballAdapter.matches_url("https://m.aiscore.com/"));
    assert!(BasketballAdapter.matches_url("https://m.aiscore.com/basketball"));
    assert_eq!(
        detail_url(1, "arsenal", "chelsea", "m1").as_deref(),
        Some("https://m.aiscore.com/match-arsenal-chelsea/m1")
    );
    assert_eq!(
        detail_url(2, "lakers", "celtics", "b1").as_deref(),
        Some("https://m.aiscore.com/match-basketball-lakers-celtics/b1")
    );
    assert_eq!(detail_url(1, "a", "chat-b", "m1"), None);
}

#[test]
fn captured_at_is_rfc3339_utc_with_millis() {
    assert_eq!(captured_at(Some(0)), "1970-01-01T00:00:00.000Z");
    assert_eq!(captured_at(Some(1_700_000_000_123)), "2023-11-14T22:13:20.123Z");
    let now: Vec<char> = captured_at(None).chars().collect();
    assert_eq!(now.len(), 24);
    assert_eq!(now[23], 'Z');
    assert_eq!(now[19], '.');
    assert_eq!(now[10], 'T');
}

#[test]
fn a_batch_gets_five_upload_attempts() {
    assert!(upload_attempt_allowed(0));
    assert!(upload_attempt_allowed(4));
    assert!(!upload_attempt_allowed(5));
}

#[test]
fn upload_payload_frames_the_batch() {
    let p = upload_payload(
        "s1", "d1", "2026-01-01", 3, 1, "2026-01-02T00:00:00.000Z",
        Json::Array(vec![]), Json::Array(vec![]), Json::Array(vec![Json::Null]), Json::Array(vec![]),
    );
    assert_eq!(
        json_text(&p),
        "{\"captured_at\":\"2026-01-02T00:00:00.000Z\",\"competitions\":[],\"dataset_created_at\":\"2026-01-01\",\"dataset_id\":\"d1\",\"generation_order\":3,\"match_details\":[],\"matches\":[null],\"protocol_version\":2,\"sport_id\":1,\"sync_id\":\"s1\",\"teams\":[]}"
    );
}
