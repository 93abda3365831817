//! The sport adapters of the list crawler and the tabs it owns.
use vstd::prelude::*;
use crate::text::{chars_of, contains_seq, contains_str};

verus! {

/// Declares `std::time::Instant` (when a tab was opened), opaque to proofs.
#[verifier::external_type_specification]
#[verifier::external_body]
pub struct ExInstant(std::time::Instant);

/// A sport's list page: how to recognise it and what to run in it.
pub trait SportAdapter {
    spec fn sport(&self) -> i32;

    spec fn url_matches(&self, url: Seq<char>) -> bool;

    fn sport_id(&self) -> (r: i32)
        ensures
            r == self.sport(),
    ;

    fn name(&self) -> &'static str;

    fn matches_url(&self, url: &str) -> (r: bool)
        ensures
            r == self.url_matches(url@),
    ;

    fn target_url(&self) -> &'static str;

    fn extract_state_js(&self) -> &'static str;

    fn activate_live_js(&self) -> &'static str;
}

/// The football list page script that reads the live matches and their
/// teams and competitions from the page store.
pub const FOOTBALL_STATE_JS: &'static str = r#"(function() {
            const fHome = window.$nuxt && window.$nuxt.$store && (window.$nuxt.$store.state['football/home'] || window.$nuxt.$store.state['home']);
            if (!fHome) return null;

            const normalize = (coll) => {
                if (!coll) return [];
                if (Array.isArray(coll)) return coll;
                if (typeof coll === 'object') return Object.values(coll);
                return [];
            };

            const terminal = /(^|\b)(ft|aet|full[\s-]*time|finished|ended|after penalties|cancel(?:led|ed)|postponed|abandoned|awarded|walkover)(\b|$)/i;
            const statusId = match => Number(match?.statusId ?? match?.status_id ?? match?.status?.id ?? 0);
            const hasTerminalStatus = match => [
                match?.statusText, match?.status_text, match?.statusLabel, match?.status_label,
                match?.statusName, match?.stateName, match?.matchStatus, match?.state,
                typeof match?.status === 'object' ? (match.status.name || match.status.label || match.status.text) : match?.status
            ].some(value => typeof value === 'string' && terminal.test(value.trim()));
            const isLiveMatch = match => [2, 3, 4, 5, 6, 7].includes(statusId(match)) && !hasTerminalStatus(match);

            const matches = normalize(fHome.matchesData_matches || fHome.matches || fHome.list).filter(isLiveMatch);
            const teamIds = new Set(matches.flatMap(match => [
                match?.homeTeam?.id || match?.homeTeamId || match?.home_team_id,
                match?.awayTeam?.id || match?.awayTeamId || match?.away_team_id
            ].filter(Boolean).map(String)));
            const competitionIds = new Set(matches.map(match =>
                match?.competition?.id || match?.competitionId || match?.competition_id
            ).filter(Boolean).map(String));
            const teams = normalize(fHome.matchesData_teams || fHome.teams)
                .filter(team => team && teamIds.has(String(team.id)));
            const competitions = normalize(fHome.matchesData_competitions || fHome.competitions)
                .filter(competition => competition && competitionIds.has(String(competition.id)));

            const getActiveFilter = () => {
                const path = (window.$nuxt && window.$nuxt.$route && window.$nuxt.$route.path) || window.location.pathname;
                if (path.includes('/live')) return 'live';
                if (fHome.filter === 'live' || fHome.dataType === 'live' || fHome.tab === 'live') return 'live';
                const btn = Array.from(document.querySelectorAll('div, span, a, li, button'))
                    .find(e => e.textContent && e.textContent.trim().toLowerCase() === 'live');
                if (btn) {
                    const cls = (btn.className || '').toString().toLowerCase();
                    const parentCls = (btn.parentElement?.className || '').toString().toLowerCase();
                    if (cls.includes('active') || cls.includes('selected') || cls.includes('cur') || cls.includes('current') || cls.includes('on')
                        || parentCls.includes('active') || parentCls.includes('selected') || parentCls.includes('cur') || parentCls.includes('current') || parentCls.includes('on')) {
                        return 'live';
                    }
                }
                return 'all';
            };

            return {
                matches,
                teams,
                competitions,
                activeFilter: getActiveFilter(),
                sportId: 1,
                timestamp: Date.now()
            };
        })()"#;

/// The football list page script that clicks the Live filter.
pub const FOOTBALL_ACTIVATE_LIVE_JS: &'static str = r#"(function() {
            const fHome = window.$nuxt && window.$nuxt.$store && (window.$nuxt.$store.state['football/home'] || window.$nuxt.$store.state['home']);
            if (!fHome) return null;

            const normalize = (coll) => {
                if (!coll) return [];
                if (Array.isArray(coll)) return coll;
                if (typeof coll === 'object') return Object.values(coll);
                return [];
            };

            const terminal = /(^|\b)(ft|aet|full[\s-]*time|finished|ended|after penalties|cancel(?:led|ed)|postponed|abandoned|awarded|walkover)(\b|$)/i;
            const statusId = match => Number(match?.statusId ?? match?.status_id ?? match?.status?.id ?? 0);
            const hasTerminalStatus = match => [
                match?.statusText, match?.status_text, match?.statusLabel, match?.status_label,
                match?.statusName, match?.stateName, match?.matchStatus, match?.state,
                typeof match?.status === 'object' ? (match.status.name || match.status.label || match.status.text) : match?.status
            ].some(value => typeof value === 'string' && terminal.test(value.trim()));
            const isLiveMatch = match => [2, 3, 4, 5, 6, 7].includes(statusId(match)) && !hasTerminalStatus(match);

            const matches = normalize(fHome.matchesData_matches || fHome.matches || fHome.list).filter(isLiveMatch);
            const teamIds = new Set(matches.flatMap(match => [
                match?.homeTeam?.id || match?.homeTeamId || match?.home_team_id,
                match?.awayTeam?.id || match?.awayTeamId || match?.away_team_id
            ].filter(Boolean).map(String)));
            const competitionIds = new Set(matches.map(match =>
                match?.competition?.id || match?.competitionId || match?.competition_id
            ).filter(Boolean).map(String));
            const teams = normalize(fHome.matchesData_teams || fHome.teams)
                .filter(team => team && teamIds.has(String(team.id)));
            const competitions = normalize(fHome.matchesData_competitions || fHome.competitions)
                .filter(competition => competition && competitionIds.has(String(competition.id)));

            const getActiveFilter = () => {
                const path = (window.$nuxt && window.$nuxt.$route && window.$nuxt.$route.path) || window.location.pathname;
                if (path.includes('/live')) return 'live';
                if (fHome.filter === 'live' || fHome.dataType === 'live' || fHome.tab === 'live') return 'live';
                const btn = Array.from(document.querySelectorAll('div, span, a, li, button'))
                    .find(e => e.textContent && e.textContent.trim().toLowerCase() === 'live');
                if (btn) {
                    const cls = (btn.className || '').toString().toLowerCase();
                    const parentCls = (btn.parentElement?.className || '').toString().toLowerCase();
                    if (cls.includes('active') || cls.includes('selected') || cls.includes('cur') || cls.includes('current') || cls.includes('on')
                        || parentCls.includes('active') || parentCls.includes('selected') || parentCls.includes('cur') || parentCls.includes('current') || parentCls.includes('on')) {
                        return 'live';
                    }
                }
                return 'all';
            };

            return {
                matches,
                teams,
                competitions,
                activeFilter: getActiveFilter(),
                sportId: 1,
                timestamp: Date.now()
            };
        })()"#;

/// The basketball list page script that reads the live matches and their
/// teams and competitions from the page store.
pub const BASKETBALL_STATE_JS: &'static str = r#"(function() {
            const fHome = window.$nuxt && window.$nuxt.$store && (window.$nuxt.$store.state['football/home'] || window.$nuxt.$store.state['home']);
            if (!fHome) return null;

            const normalize = (coll) => {
                if (!coll) return [];
                if (Array.isArray(coll)) return coll;
                if (typeof coll === 'object') return Object.values(coll);
                return [];
            };

            const terminal = /(^|\b)(ft|aet|full[\s-]*time|finished|ended|after penalties|cancel(?:led|ed)|postponed|abandoned|awarded|walkover)(\b|$)/i;
            const statusId = match => Number(match?.statusId ?? match?.status_id ?? match?.status?.id ?? 0);
            const hasTerminalStatus = match => [
                match?.statusText, match?.status_text, match?.statusLabel, match?.status_label,
                match?.statusName, match?.stateName, match?.matchStatus, match?.state,
                typeof match?.status === 'object' ? (match.status.name || match.status.label || match.status.text) : match?.status
            ].some(value => typeof value === 'string' && terminal.test(value.trim()));
            const isLiveMatch = match => [2, 3, 4, 5, 6, 7].includes(statusId(match)) && !hasTerminalStatus(match);

            const matches = normalize(fHome.matchesData_matches || fHome.matches || fHome.list).filter(isLiveMatch);
            const teamIds = new Set(matches.flatMap(match => [
                match?.homeTeam?.id || match?.homeTeamId || match?.home_team_id,
                match?.awayTeam?.id || match?.awayTeamId || match?.away_team_id
            ].filter(Boolean).map(String)));
            const competitionIds = new Set(matches.map(match =>
                match?.competition?.id || match?.competitionId || match?.competition_id
            ).filter(Boolean).map(String));
            const teams = normalize(fHome.matchesData_teams || fHome.teams)
                .filter(team => team && teamIds.has(String(team.id)));
            const competitions = normalize(fHome.matchesData_competitions || fHome.competitions)
                .filter(competition => competition && competitionIds.has(String(competition.id)));

            const getActiveFilter = () => {
                const path = (window.$nuxt && window.$nuxt.$route && window.$nuxt.$route.path) || window.location.pathname;
                if (path.includes('/live')) return 'live';
                if (fHome.filter === 'live' || fHome.dataType === 'live' || fHome.tab === 'live') return 'live';
                const btn = Array.from(document.querySelectorAll('div, span, a, li, button'))
                    .find(e => e.textContent && e.textContent.trim().toLowerCase() === 'live');
                if (btn) {
                    const cls = (btn.className || '').toString().toLowerCase();
                    const parentCls = (btn.parentElement?.className || '').toString().toLowerCase();
                    if (cls.includes('active') || cls.includes('selected') || cls.includes('cur') || cls.includes('current') || cls.includes('on')
                        || parentCls.includes('active') || parentCls.includes('selected') || parentCls.includes('cur') || parentCls.includes('current') || parentCls.includes('on')) {
                        return 'live';
                    }
                }
                return 'all';
            };

            return {
                matches,
                teams,
                competitions,
                activeFilter: getActiveFilter(),
                sportId: 1,
                timestamp: Date.now()
            };
        })()"#;

/// The basketball list page script that clicks the Live filter.
pub const BASKETBALL_ACTIVATE_LIVE_JS: &'static str = r#"(function() {
            const btn = Array.from(document.querySelectorAll('div, span, a, li, button'))
                .find(e => e.textContent && e.textContent.trim().toLowerCase() === 'live');
            if (btn) { btn.click(); return true; }
            return false;
        })()"#;

pub struct FootballAdapter;

pub struct BasketballAdapter;

impl SportAdapter for FootballAdapter {
    open spec fn sport(&self) -> i32 {
        1
    }

    /// An aiscore page that is not the basketball, tennis or baseball one.
    open spec fn url_matches(&self, url: Seq<char>) -> bool {
        (contains_seq(url, "m.aiscore.com"@) || contains_seq(url, "aiscore.com"@)) && !contains_seq(
            url,
            "basketball"@,
        ) && !contains_seq(url, "tennis"@) && !contains_seq(url, "baseball"@)
    }

    fn sport_id(&self) -> (r: i32) {
        1
    }

    fn name(&self) -> (r: &'static str)
        ensures
            r@ == "football"@,
    {
        "football"
    }

    fn matches_url(&self, url: &str) -> (r: bool) {
        let u = chars_of(url);
        (contains_str(&u, "m.aiscore.com") || contains_str(&u, "aiscore.com")) && !contains_str(
            &u,
            "basketball",
        ) && !contains_str(&u, "tennis") && !contains_str(&u, "baseball")
    }

    fn target_url(&self) -> (r: &'static str)
        ensures
            r@ == "https://m.aiscore.com/"@,
    {
        "https://m.aiscore.com/"
    }

    fn extract_state_js(&self) -> (r: &'static str)
        ensures
            r@ == FOOTBALL_STATE_JS@,
    {
        FOOTBALL_STATE_JS
    }

    fn activate_live_js(&self) -> (r: &'static str)
        ensures
            r@ == FOOTBALL_ACTIVATE_LIVE_JS@,
    {
        FOOTBALL_ACTIVATE_LIVE_JS
    }
}

impl SportAdapter for BasketballAdapter {
    open spec fn sport(&self) -> i32 {
        2
    }

    /// Any page whose address names basketball.
    open spec fn url_matches(&self, url: Seq<char>) -> bool {
        contains_seq(url, "basketball"@)
    }

    fn sport_id(&self) -> (r: i32) {
        2
    }

    fn name(&self) -> (r: &'static str)
        ensures
            r@ == "basketball"@,
    {
        "basketball"
    }

    fn matches_url(&self, url: &str) -> (r: bool) {
        let u = chars_of(url);
        contains_str(&u, "basketball")
    }

    fn target_url(&self) -> (r: &'static str)
        ensures
            r@ == "https://m.aiscore.com/basketball"@,
    {
        "https://m.aiscore.com/basketball"
    }

    fn extract_state_js(&self) -> (r: &'static str)
        ensures
            r@ == BASKETBALL_STATE_JS@,
    {
        BASKETBALL_STATE_JS
    }

    fn activate_live_js(&self) -> (r: &'static str)
        ensures
            r@ == BASKETBALL_ACTIVATE_LIVE_JS@,
    {
        BASKETBALL_ACTIVATE_LIVE_JS
    }
}

/// What a crawler-owned tab is for.
#[derive(Debug, Clone, Copy, PartialEq, Eq, Structural)]
pub enum TargetRole {
    List,
    Detail,
}

/// A tab created by this crawler session.
#[derive(Debug)]
pub struct OwnedTarget {
    pub target_id: String,
    pub websocket_url: String,
    pub role: TargetRole,
    pub sport_id: i32,
    /// The match a detail tab was opened for.
    pub requested_match_id: Option<String>,
    pub created_at: std::time::Instant,
}

/// The tab record of a list tab for a sport.
pub fn list_target(
    target_id: String,
    websocket_url: String,
    sport_id: i32,
    created_at: std::time::Instant,
) -> (r: OwnedTarget)
    ensures
        r.target_id == target_id,
        r.websocket_url == websocket_url,
        r.role == TargetRole::List,
        r.sport_id == sport_id,
        r.requested_match_id is None,
        r.created_at == created_at,
{
    OwnedTarget { target_id, websocket_url, role: TargetRole::List, sport_id, requested_match_id: None, created_at }
}

/// The tab record of a detail tab for one match.
pub fn detail_target(
    target_id: String,
    websocket_url: String,
    match_id: String,
    sport_id: i32,
    created_at: std::time::Instant,
) -> (r: OwnedTarget)
    ensures
        r.target_id == target_id,
        r.websocket_url == websocket_url,
        r.role == TargetRole::Detail,
        r.sport_id == sport_id,
        r.requested_match_id == Some(match_id),
        r.created_at == created_at,
{
    OwnedTarget {
        target_id,
        websocket_url,
        role: TargetRole::Detail,
        sport_id,
        requested_match_id: Some(match_id),
        created_at,
    }
}

} // verus!
