use earnscore::domain::events::{
    canonical_json, event_key_digest, event_key_parts, is_blocked_key, payload_hash,
    sanitize_payload, trim_timestamp, EventType, NormalizedEvent,
};
use earnscore::json::{
    get_member, insert_member, int_to_text, json_as_i64, json_int, json_text, member_i64,
    normalized, parse_i64_text, Json,
};
use earnscore::text::{collapse_ws_chars, status_norm_exec, trim_str};

fn obj(pairs: Vec<(&str, Json)>) -> Json {
    let mut fields: Vec<(String, Json)> = Vec::new();
    for (k, v) in pairs {
        insert_member(&mut fields, k.to_string(), v);
    }
    Json::Object(fields)
}

fn text(x: &str) -> Json {
    Json::Str(x.to_string())
}

fn chars(s: &str) -> Vec<char> {
    s.chars().collect()
}

#[test]
fn json_text_is_compact_and_ordered() {
    let j = obj(vec![
        ("b", Json::Array(vec![json_int(-3), Json::Bool(true), Json::Null])),
        ("a", text("x\"y")),
    ]);
    assert_eq!(json_text(&j), "{\"a\":\"x\\\"y\",\"b\":[-3,true,null]}");
    let unordered = Json::Object(vec![
        ("z".to_string(), json_int(1)),
        ("a".to_string(), json_int(2)),
    ]);
    assert_eq!(json_text(&normalized(&unordered)), "{\"a\":2,\"z\":1}");
    assert_eq!(canonical_json(&unordered), "{\"a\":2,\"z\":1}");
    let mut fields = vec![];
    insert_member(&mut fields, "k".into(), json_int(1));
    insert_member(&mut fields, "k".into(), json_int(2));
    assert_eq!(fields.len(), 1);
}

#[test]
fn integers_round_trip_through_text() {
    for v in [0i64, 7, -42, i64::MAX, i64::MIN] {
        assert_eq!(int_to_text(v), v.to_string());
        assert_eq!(parse_i64_text(&v.to_string()), Some(v));
    }
    assert_eq!(parse_i64_text("1.5"), None);
    assert_eq!(parse_i64_text("9223372036854775808"), None);
    let j = obj(vec![("n", json_int(12)), ("s", text("12"))]);
    assert_eq!(member_i64(&j, "n"), Some(12));
    assert_eq!(member_i64(&j, "s"), None);
    assert_eq!(json_as_i64(get_member(&j, "n").unwrap()), Some(12));
}

#[test]
fn chat_members_are_removed_at_every_depth() {
    assert!(is_blocked_key("Chat"));
    assert!(is_blocked_key("commentCount"));
    assert!(is_blocked_key("MESSAGES"));
    assert!(!is_blocked_key("score"));
    let v = obj(vec![
        ("score", json_int(1)),
        ("comments", Json::Array(vec![])),
        (
            "list",
            Json::Array(vec![obj(vec![("chatRoom", text("x")), ("id", text("1"))])]),
        ),
    ]);
    assert_eq!(json_text(&sanitize_payload(v)), "{\"list\":[{\"id\":\"1\"}],\"score\":1}");
}

#[test]
fn event_identity_is_a_digest_of_its_key() {
    let payload = obj(vec![("a", json_int(1)), ("chat", text("x"))]);
    assert_eq!(payload_hash(&sanitize_payload(obj(vec![("a", json_int(1))]))), "9c3e82dd6fcae8b1");
    let e = NormalizedEvent::new(
        EventType::MatchScoreChanged,
        Some("m1".into()),
        Some(1),
        Some(" 2026-01-01T00:00:00Z ".into()),
        "r".into(),
        payload,
    );
    assert_eq!(e.payload_hash, "9c3e82dd6fcae8b1");
    assert_eq!(e.source_timestamp.as_deref(), Some("2026-01-01T00:00:00Z"));
    assert_eq!(e.event_key(), "m1|MATCH_SCORE_CHANGED|2026-01-01T00:00:00Z|9c3e82dd6fcae8b1");
    assert_eq!(e.event_id, "evt-f289caf50b690b7a");
    assert_eq!(event_key_digest(""), "cbf29ce484222325");
    assert_eq!(event_key_parts(None, EventType::FeedHeartbeat, None, "h"), "|FEED_HEARTBEAT||h");
    assert_eq!(trim_timestamp(Some("   ".into())), None);
    let k = e.ordering_key();
    assert_eq!(k.event_id, e.event_id);
}

#[test]
fn text_helpers() {
    assert_eq!(trim_str("  a b \n"), chars("a b"));
    assert_eq!(collapse_ws_chars(&chars("  a \t b  ")), chars("a b"));
    assert_eq!(status_norm_exec(" Half_Time "), chars("half time"));
}
