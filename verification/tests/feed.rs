use earnscore::domain::events::EventType;
use earnscore::feed::adapters::{FeedAdapter, FeedError, SourceEnvelope, SourceLayer};
use earnscore::feed::browser::{
    owns_target, select_fallbacks, FallbackProbe, FeedBrowserError, OwnedTarget, TargetRole,
};
use earnscore::feed::session::{
    is_stale_after, priority_indices, run_step, watchdog_action, FeedLifecycleEvent,
    FeedSession, FeedSessionConfig, RunStep, SessionState, WatchdogAction,
};
use earnscore::feed::{BasketballAdapter, FootballAdapter};
use earnscore::json::{insert_member, json_int, Json};

fn obj(pairs: Vec<(&str, Json)>) -> Json {
    let mut fields: Vec<(String, Json)> = Vec::new();
    for (k, v) in pairs {
        insert_member(&mut fields, k.to_string(), v);
    }
    Json::Object(fields)
}

fn text(x: &str) -> Json {
    Json::Str(x.to_string())
}

fn row(id: &str, status: i64) -> Json {
    obj(vec![
        ("id", text(id)),
        ("statusId", json_int(status)),
        ("competition", obj(vec![("id", text("c"))])),
        ("homeTeam", obj(vec![("id", text("h"))])),
        ("awayTeam", obj(vec![("id", text("a"))])),
        ("homeScore", json_int(1)),
    ])
}

fn live_list(sport: i64, rows: Vec<Json>) -> Json {
    obj(vec![
        ("activeFilter", text("live")),
        ("sportId", json_int(sport)),
        ("matches", Json::Array(rows)),
    ])
}

fn target(id: &str) -> OwnedTarget {
    OwnedTarget {
        target_id: id.to_string(),
        websocket_url: format!("ws://127.0.0.1:9222/devtools/page/{id}"),
        role: TargetRole::Live,
        sport_id: 1,
        session_id: "cdp".to_string(),
    }
}

#[test]
fn source_changed_is_fail_closed() {
    let adapter = FootballAdapter;
    let err = adapter
        .extract(&SourceEnvelope::new(
            SourceLayer::Network,
            obj(vec![
                ("activeFilter", text("live")),
                ("sportId", json_int(1)),
                ("matches", obj(vec![])),
            ]),
        ))
        .unwrap_err();
    assert!(matches!(err, FeedError::SourceChanged(_)));
}

#[test]
fn extraction_checks_filter_sport_and_rows() {
    let env = |p: Json| SourceEnvelope::new(SourceLayer::Store, p);
    let wrong_filter = obj(vec![("activeFilter", text("all")), ("sportId", json_int(1))]);
    assert!(matches!(FootballAdapter.extract(&env(wrong_filter)), Err(FeedError::WrongFilter)));
    assert!(matches!(
        BasketballAdapter.extract(&env(live_list(1, vec![]))),
        Err(FeedError::WrongSport)
    ));
    let no_status = live_list(1, vec![obj(vec![("id", text("m"))])]);
    match FootballAdapter.extract(&env(no_status)) {
        Err(FeedError::SourceChanged(m)) => assert_eq!(m, "match status missing"),
        _ => panic!("expected a changed source"),
    }
    let ok = FootballAdapter
        .extract(&env(live_list(1, vec![row("m1", 2), row("m2", 8)])))
        .unwrap();
    assert_eq!(ok.len(), 2);
    assert_eq!(ok[0].match_id, "m1");
    assert!(ok[0].is_live);
    assert!(!ok[1].is_live);
    let b = BasketballAdapter.extract(&env(live_list(2, vec![row("b1", 9)]))).unwrap();
    assert!(b[0].is_live);
}

#[test]
fn session_admits_finished_rows_only_after_live_and_once() {
    let mut s = FeedSession::new(FootballAdapter, target("t1"), FeedSessionConfig::default());
    assert_eq!(s.state(), SessionState::Ready);
    assert!(s.session_id().starts_with("feed-"));
    let finished_first = SourceEnvelope::new(SourceLayer::Network, live_list(1, vec![row("m2", 8)]));
    assert_eq!(s.ingest(&finished_first, "r0").unwrap().len(), 0);
    let both = SourceEnvelope::new(SourceLayer::Network, live_list(1, vec![row("m1", 2)]));
    let first = s.ingest(&both, "r1").unwrap();
    assert_eq!(first.len(), 1);
    assert_eq!(first[0].event_type, EventType::MatchDiscoveredLive);
    assert_eq!(first[0].match_id.as_deref(), Some("m1"));
    assert_eq!(s.state(), SessionState::Connected);
    assert_eq!(s.ingest(&both, "r2").unwrap().len(), 0);
    let done = SourceEnvelope::new(SourceLayer::Network, live_list(1, vec![row("m1", 8)]));
    let fin = s.ingest(&done, "r3").unwrap();
    assert_eq!(fin.len(), 1);
    assert_eq!(fin[0].event_type, EventType::MatchFinished);
}

#[test]
fn disconnect_is_reported_once_until_reconnected() {
    let mut s = FeedSession::new(BasketballAdapter, target("t2"), FeedSessionConfig::default());
    let (ev, first) = s.mark_disconnected("r1".into());
    assert_eq!(ev.event_type, EventType::FeedDisconnected);
    assert_eq!(ev.sport_id, Some(2));
    assert!(matches!(first, Some(FeedLifecycleEvent::Disconnected { sport_id: 2, .. })));
    let (_, second) = s.mark_disconnected("r2".into());
    assert!(second.is_none());
    assert_eq!(s.state(), SessionState::Disconnected);
    let back = s.reconnected(target("t3"));
    assert!(matches!(back, Some(FeedLifecycleEvent::Reconnected { sport_id: 2, .. })));
    assert_eq!(s.target().target_id, "t3");
    assert!(s.reconnected(target("t4")).is_none());
    let hb = s.heartbeat("r3".into());
    assert_eq!(hb.event_type, EventType::FeedHeartbeat);
}

#[test]
fn poll_without_capture_reports_disconnect() {
    let mut s = FeedSession::new(FootballAdapter, target("t5"), FeedSessionConfig::default());
    let (r, life) = s.poll_step(None, "r".into());
    assert!(matches!(r, Err(FeedError::Disconnected)));
    assert!(life.is_some());
    let (r2, life2) = s.poll_step(Some((None, Ok(vec![]))), "r".into());
    assert_eq!(r2.unwrap().len(), 0);
    assert!(life2.is_none());
    let net = SourceEnvelope::new(SourceLayer::Network, live_list(1, vec![row("m1", 3)]));
    let (r3, _) = s.poll_step(Some((Some(net), Err(FeedBrowserError::NotOwned))), "r".into());
    assert_eq!(r3.unwrap().len(), 1);
}

#[test]
fn preferred_source_is_network_then_store_then_dom() {
    let envs = vec![
        SourceEnvelope::new(SourceLayer::Dom, Json::Null),
        SourceEnvelope::new(SourceLayer::Network, Json::Null),
        SourceEnvelope::new(SourceLayer::Store, Json::Null),
        SourceEnvelope::new(SourceLayer::Network, Json::Null),
    ];
    assert_eq!(priority_indices(&envs), vec![1, 3, 2, 0]);
    let mut s = FeedSession::new(FootballAdapter, target("t6"), FeedSessionConfig::default());
    let mixed = vec![
        SourceEnvelope::new(SourceLayer::Dom, live_list(1, vec![row("dom", 2)])),
        SourceEnvelope::new(SourceLayer::Network, live_list(1, vec![row("net", 2)])),
    ];
    let events = s.ingest_preferred(&mixed, "r").unwrap();
    assert_eq!(events[0].match_id.as_deref(), Some("net"));
    assert!(matches!(
        s.ingest_preferred(&vec![], "r"),
        Err(FeedError::SourceChanged(_))
    ));
}

#[test]
fn watchdog_and_run_decisions() {
    assert_eq!(watchdog_action(false, 0, 5, 20), WatchdogAction::Reconnect);
    assert_eq!(watchdog_action(true, 20, 5, 20), WatchdogAction::ReconnectStale);
    assert_eq!(watchdog_action(true, 6, 5, 20), WatchdogAction::Heartbeat);
    assert_eq!(watchdog_action(true, 1, 5, 20), WatchdogAction::Idle);
    assert!(is_stale_after(20, 20));
    assert!(!is_stale_after(19, 20));
    assert!(matches!(run_step(Err(FeedError::Disconnected)), RunStep::Reconnect));
    assert!(matches!(run_step(Err(FeedError::WrongSport)), RunStep::Stop(FeedError::WrongSport)));
    assert!(matches!(run_step(Ok(vec![])), RunStep::Continue(v) if v.is_empty()));
}

#[test]
fn only_owned_targets_are_used_and_fallbacks_need_objects() {
    let owned = vec![target("a"), target("b")];
    assert!(owns_target(&owned, "b"));
    assert!(!owns_target(&owned, "c"));
    let probes = vec![
        FallbackProbe { layer: SourceLayer::Store, outcome: Ok(Json::Null) },
        FallbackProbe { layer: SourceLayer::Dom, outcome: Ok(obj(vec![])) },
    ];
    let kept = select_fallbacks(&probes).ok().unwrap();
    assert_eq!(kept.len(), 1);
    assert_eq!(kept[0].layer, SourceLayer::Dom);
    let failing = vec![FallbackProbe {
        layer: SourceLayer::Store,
        outcome: Err(FeedBrowserError::Protocol("boom".into())),
    }];
    assert!(matches!(select_fallbacks(&failing), Err(FeedBrowserError::Protocol(m)) if m == "boom"));
}

#[test]
fn session_id_is_feed_and_a_random_uuid() {
    let s = FeedSession::new(FootballAdapter, target("t1"), FeedSessionConfig::default());
    let id: Vec<char> = s.session_id().strip_prefix("feed-").unwrap().chars().collect();
    assert_eq!(id.len(), 36);
    for (i, c) in id.iter().enumerate() {
        if i == 8 || i == 13 || i == 18 || i == 23 {
            assert_eq!(*c, '-');
        } else {
            assert!(c.is_ascii_digit() || ('a'..='f').contains(c));
        }
    }
    assert_eq!(id[14], '4');
    assert!(['8', '9', 'a', 'b'].contains(&id[19]));
}

#[test]
fn session_config_defaults() {
    let c = FeedSessionConfig::default();
    assert_eq!(c.heartbeat_interval, std::time::Duration::from_secs(5));
    assert_eq!(c.stale_after, std::time::Duration::from_secs(20));
    assert_eq!(c.browser.startup_timeout, std::time::Duration::from_secs(15));
    assert!(c.browser.executable.is_none() && c.browser.profile_dir.is_none());
}
