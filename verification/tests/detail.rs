use earnscore::detail::extractor::{
    compute_hash, detail_activate_tabs_js, detail_data_tab_labels, detail_extract_js,
    extract_section_data, is_image_url, is_section_empty, placeholder_for,
};
use earnscore::detail::jobs::{final_detail_sections, manual_detail_sections, retry_backoff_secs};
use earnscore::detail::types::{DetailSection, JobStatus, LoadPhase};
use earnscore::detail::{detail_job_failure, detail_probe_accepted, DetailWorkerConfig};
use earnscore::json::{get_member, insert_member, json_as_str, json_int, Json};
use earnscore::storage::repositories::plan_initial_detail_jobs;

fn obj(pairs: Vec<(&str, Json)>) -> Json {
    let mut fields: Vec<(String, Json)> = Vec::new();
    for (k, v) in pairs {
        insert_member(&mut fields, k.to_string(), v);
    }
    Json::Object(fields)
}

fn text(x: &str) -> Json {
    Json::Str(x.to_string())
}

#[test]
fn detail_section_conversions() {
    for s in DetailSection::all() {
        assert_eq!(DetailSection::from_str(s.as_str()), Some(s));
    }
}

#[test]
fn detail_section_empty() {
    assert!(is_section_empty(DetailSection::Stats, &obj(vec![])));
    assert!(!is_section_empty(
        DetailSection::Stats,
        &obj(vec![("possession", Json::Array(vec![json_int(55), json_int(45)]))])
    ));
    assert!(is_section_empty(
        DetailSection::Lineups,
        &obj(vec![("home", Json::Array(vec![])), ("away", Json::Array(vec![]))])
    ));
    assert!(!is_section_empty(
        DetailSection::Lineups,
        &obj(vec![
            ("home", Json::Array(vec![obj(vec![("id", text("1"))])])),
            ("away", Json::Array(vec![])),
        ])
    ));
}

#[test]
fn detail_job_planning() {
    let planned = plan_initial_detail_jobs(&vec![]);
    assert_eq!(planned.len(), 6);
    let partly = plan_initial_detail_jobs(&vec!["odds".to_string(), "h2h".to_string()]);
    assert_eq!(partly, vec!["overview", "lineups", "stats", "incidents"]);
}

#[test]
fn source_url_in_memory_only() {
    let payload = obj(vec![
        ("matchId", text("match-1")),
        ("name", text("Arsenal vs Chelsea")),
        ("logo", text("https://img.aiscore.com/team/logo/arsenal.png")),
        ("h2h", obj(vec![])),
        ("odds", obj(vec![])),
        (
            "lineups",
            obj(vec![
                (
                    "home",
                    Json::Array(vec![obj(vec![
                        ("id", text("p1")),
                        ("avatar", text("https://img.aiscore.com/player/avatar.png")),
                    ])]),
                ),
                ("away", Json::Array(vec![])),
            ]),
        ),
        ("stats", obj(vec![])),
        ("incidents", Json::Array(vec![])),
    ]);
    let (_overview, _candidates) = extract_section_data(1, DetailSection::Overview, &payload);
    let (lineups, candidates) = extract_section_data(1, DetailSection::Lineups, &payload);
    assert_eq!(candidates.len(), 1);
    assert_eq!(candidates[0].url, "https://img.aiscore.com/player/avatar.png");
    assert_eq!(candidates[0].entity_type, "lineups");
    let home = get_member(&lineups, "home").unwrap();
    let first = match home {
        Json::Array(items) => &items[0],
        _ => panic!("home is not a list"),
    };
    let avatar = json_as_str(get_member(first, "avatar").unwrap()).unwrap();
    assert!(avatar.starts_with("asset-"));
    assert!(!avatar.contains("https://"));
}

#[test]
fn readiness_detail_extract_js_sport_specific() {
    let foot_js = detail_extract_js(1, "foot-match-1");
    let bask_js = detail_extract_js(2, "bask-match-1");
    assert!(foot_js.contains("football/detail"));
    assert!(!foot_js.contains("basketball/detail"));
    assert!(bask_js.contains("basketball/detail"));
    assert!(!bask_js.contains("football/detail"));
}

#[test]
fn detail_tab_activation_uses_data_allowlist_and_excludes_chat() {
    let labels = detail_data_tab_labels();
    assert_eq!(
        labels,
        vec!["Overview", "Odds", "Stats", "H2H", "Lineups", "Standings", "Prediction"]
    );
    let js = detail_activate_tabs_js(1, "foot-match-1");
    for label in labels {
        assert!(js.contains(label));
    }
    assert!(!js.to_ascii_lowercase().contains("chat"));
    assert!(js.contains("await new Promise"));
    assert!(js.contains("element.click()"));
}

#[test]
fn section_and_state_names() {
    assert_eq!(DetailSection::from_str("H2H"), None);
    assert_eq!(DetailSection::from_str("h2h"), Some(DetailSection::H2H));
    assert_eq!(LoadPhase::Initial.as_str(), "INITIAL");
    assert_eq!(JobStatus::Pending.as_str(), "PENDING");
    assert_eq!(
        final_detail_sections(),
        vec!["overview", "odds", "stats", "incidents", "lineups"]
    );
    assert_eq!(manual_detail_sections(), final_detail_sections());
}

#[test]
fn retry_backoff_doubles_and_is_capped() {
    assert_eq!(retry_backoff_secs(0, 5, 300), 5);
    assert_eq!(retry_backoff_secs(1, 5, 300), 5);
    assert_eq!(retry_backoff_secs(2, 5, 300), 10);
    assert_eq!(retry_backoff_secs(4, 5, 300), 40);
    assert_eq!(retry_backoff_secs(10, 5, 300), 300);
    assert_eq!(retry_backoff_secs(64, 5, u64::MAX), u64::MAX);
    let config = DetailWorkerConfig::default();
    assert_eq!(detail_job_failure(3, &config), (false, 20));
    assert_eq!(detail_job_failure(5, &config), (true, 80));
}

#[test]
fn detail_probe_needs_the_requested_match_and_sport() {
    let d = obj(vec![("matchId", text("m1")), ("sportId", json_int(2))]);
    assert!(detail_probe_accepted(&d, "m1", 2));
    assert!(!detail_probe_accepted(&d, "m1", 1));
    assert!(!detail_probe_accepted(&d, "m2", 2));
    assert!(!detail_probe_accepted(&Json::Null, "", 0));
}

#[test]
fn images_become_placeholders() {
    assert!(is_image_url("https://img.aiscore.com/x.png"));
    assert!(!is_image_url("https://aiscore.com/page"));
    let p = placeholder_for("https://img.aiscore.com/x.png");
    assert!(p.starts_with("asset-"));
    assert_eq!(p, placeholder_for("https://img.aiscore.com/x.png"));
    assert_ne!(p, placeholder_for("https://img.aiscore.com/y.png"));
    let a = compute_hash(&obj(vec![("b", json_int(1)), ("a", json_int(2))]));
    let b = compute_hash(&Json::Object(vec![
        ("b".to_string(), json_int(1)),
        ("a".to_string(), json_int(2)),
    ]));
    assert_eq!(a, b);
    assert_eq!(a.len(), 32);
    assert_eq!(compute_hash(&Json::Null), "37a6259cc0c1dae299a7866489dff0bd");
}

#[test]
fn only_exact_section_names_read_as_sections() {
    assert_eq!(DetailSection::from_str("Odds"), None);
    assert_eq!(DetailSection::from_str(" odds"), None);
    assert_eq!(DetailSection::from_str(""), None);
}
