use vstd::prelude::*;
use crate::text::chars_eq_str;

verus! {

/// A data section of a match detail page.
#[derive(Debug, Clone, Copy, PartialEq, Eq, Hash, Structural)]
pub enum DetailSection {
    Overview,
    Odds,
    H2H,
    Lineups,
    Stats,
    Incidents,
}

pub open spec fn section_name(s: DetailSection) -> Seq<char> {
    match s {
        DetailSection::Overview => "overview"@,
        DetailSection::Odds => "odds"@,
        DetailSection::H2H => "h2h"@,
        DetailSection::Lineups => "lineups"@,
        DetailSection::Stats => "stats"@,
        DetailSection::Incidents => "incidents"@,
    }
}

pub open spec fn section_named(n: Seq<char>) -> Option<DetailSection> {
    if n == "overview"@ {
        Some(DetailSection::Overview)
    } else if n == "odds"@ {
        Some(DetailSection::Odds)
    } else if n == "h2h"@ {
        Some(DetailSection::H2H)
    } else if n == "lineups"@ {
        Some(DetailSection::Lineups)
    } else if n == "stats"@ {
        Some(DetailSection::Stats)
    } else if n == "incidents"@ {
        Some(DetailSection::Incidents)
    } else {
        None
    }
}

impl DetailSection {
    pub fn as_str(&self) -> (r: &'static str)
        ensures
            r@ == section_name(*self),
    {
        match self {
            DetailSection::Overview => "overview",
            DetailSection::Odds => "odds",
            DetailSection::H2H => "h2h",
            DetailSection::Lineups => "lineups",
            DetailSection::Stats => "stats",
            DetailSection::Incidents => "incidents",
        }
    }

    pub fn from_str(s: &str) -> (r: Option<Self>)
        ensures
            r == section_named(s@),
    {
        let c = crate::text::chars_of(s);
        if chars_eq_str(&c, "overview") {
            Some(DetailSection::Overview)
        } else if chars_eq_str(&c, "odds") {
            Some(DetailSection::Odds)
        } else if chars_eq_str(&c, "h2h") {
            Some(DetailSection::H2H)
        } else if chars_eq_str(&c, "lineups") {
            Some(DetailSection::Lineups)
        } else if chars_eq_str(&c, "stats") {
            Some(DetailSection::Stats)
        } else if chars_eq_str(&c, "incidents") {
            Some(DetailSection::Incidents)
        } else {
            None
        }
    }

    /// Every section, in page order.
    pub fn all() -> (r: Vec<Self>)
        ensures
            r@ == seq![
                DetailSection::Overview,
                DetailSection::Odds,
                DetailSection::H2H,
                DetailSection::Lineups,
                DetailSection::Stats,
                DetailSection::Incidents,
            ],
    {
        let mut v = Vec::new();
        v.push(DetailSection::Overview);
        v.push(DetailSection::Odds);
        v.push(DetailSection::H2H);
        v.push(DetailSection::Lineups);
        v.push(DetailSection::Stats);
        v.push(DetailSection::Incidents);
        v
    }
}

/// Reading a section back from its name gives the same section, and only
/// the exact names (case-sensitive) read as a section: any other text reads
/// as none.
pub proof fn section_name_round_trip(s: DetailSection, x: Seq<char>)
    ensures
        section_named(section_name(s)) == Some(s),
        section_named(x) matches Some(t) ==> section_name(t) == x,
        (forall|t: DetailSection| section_name(t) != x) ==> section_named(x) is None,
{
    reveal_strlit("overview");
    reveal_strlit("odds");
    reveal_strlit("h2h");
    reveal_strlit("lineups");
    reveal_strlit("stats");
    reveal_strlit("incidents");
    assert("overview"@.len() == 8);
    assert("odds"@.len() == 4);
    assert("h2h"@.len() == 3);
    assert("lineups"@.len() == 7);
    assert("stats"@.len() == 5);
    assert("incidents"@.len() == 9);
    if section_named(x) is Some {
        assert(section_name(section_named(x)->0) == x);
    }
}

/// Whether a detail job belongs to the first load of a match.
#[derive(Debug, Clone, Copy, PartialEq, Eq, Structural)]
pub enum LoadPhase {
    Initial,
    NonInitial,
}

impl LoadPhase {
    pub fn as_str(&self) -> (r: &'static str)
        ensures
            r@ == match *self {
                LoadPhase::Initial => "INITIAL"@,
                LoadPhase::NonInitial => "NON_INITIAL"@,
            },
    {
        match self {
            LoadPhase::Initial => "INITIAL",
            LoadPhase::NonInitial => "NON_INITIAL",
        }
    }
}

/// The status of a detail job.
#[derive(Debug, Clone, Copy, PartialEq, Eq, Structural)]
pub enum JobStatus {
    Pending,
    Loading,
    Completed,
    FailedRetryable,
    FailedPermanent,
    EmptyConfirmed,
}

pub open spec fn job_status_name(s: JobStatus) -> Seq<char> {
    match s {
        JobStatus::Pending => "PENDING"@,
        JobStatus::Loading => "LOADING"@,
        JobStatus::Completed => "COMPLETED"@,
        JobStatus::FailedRetryable => "FAILED_RETRYABLE"@,
        JobStatus::FailedPermanent => "FAILED_PERMANENT"@,
        JobStatus::EmptyConfirmed => "EMPTY_CONFIRMED"@,
    }
}

impl JobStatus {
    pub fn as_str(&self) -> (r: &'static str)
        ensures
            r@ == job_status_name(*self),
    {
        match self {
            JobStatus::Pending => "PENDING",
            JobStatus::Loading => "LOADING",
            JobStatus::Completed => "COMPLETED",
            JobStatus::FailedRetryable => "FAILED_RETRYABLE",
            JobStatus::FailedPermanent => "FAILED_PERMANENT",
            JobStatus::EmptyConfirmed => "EMPTY_CONFIRMED",
        }
    }
}

/// A claimed detail job.
#[derive(Debug, Clone)]
pub struct DetailJob {
    pub id: i64,
    pub match_id: String,
    pub dataset_id: String,
    pub section_name: String,
    pub load_phase: String,
    pub attempt_count: i32,
}

/// An image URL candidate extracted from the detail payload.  It is kept in
/// memory only and is never serialized.
#[derive(Debug, Clone)]
pub struct ImageCandidate {
    pub url: String,
    pub entity_type: String,
    pub entity_id: String,
    pub role: String,
}

}
