//! Finalization versions: when a phase may begin, which sections its plan
//! refreshes, and when a running version is complete.
use vstd::prelude::*;
use crate::domain::events::{payload_hash, payload_hash_spec};
use crate::json::{
    fields_view, int_text_of, int_to_text, json_parse, lemma_fields_view, parse_json_text, Json, JsonV,
};
use crate::text::{extend_str, owned, string_from_chars};

verus! {

/// Declares `rusqlite::Error`, carried inside a finalization error, opaque
/// to proofs.
#[verifier::external_type_specification]
#[verifier::external_body]
pub struct ExSqlError(rusqlite::Error);

#[derive(Debug, Clone, Copy, PartialEq, Eq, Structural)]
pub enum FinalizationPhase {
    Final,
    Manual,
}

pub open spec fn phase_name(p: FinalizationPhase) -> Seq<char> {
    match p {
        FinalizationPhase::Final => "FINAL"@,
        FinalizationPhase::Manual => "MANUAL"@,
    }
}

impl FinalizationPhase {
    pub fn as_str(self) -> (r: &'static str)
        ensures
            r@ == phase_name(self),
    {
        match self {
            FinalizationPhase::Final => "FINAL",
            FinalizationPhase::Manual => "MANUAL",
        }
    }
}

/// Why a finalization step failed.
#[derive(Debug)]
pub enum FinalizationError {
    Sql(rusqlite::Error),
    Busy(String),
    NotReady(String),
}

/// One version of a match's finalization.
#[derive(Debug, Clone)]
pub struct FinalizationVersion {
    pub match_id: String,
    pub dataset_id: String,
    pub version: i64,
    pub phase: String,
}

/// A parsed document, or null when the text did not parse.
pub open spec fn parsed_or_null(p: Result<JsonV, Seq<char>>) -> JsonV {
    match p {
        Ok(v) => v,
        Err(_) => JsonV::Null,
    }
}

/// The finalization steps.
pub struct Finalizer;

impl Finalizer {
    /// Whether a phase may start: a completed match takes no second FINAL
    /// version (only an audited MANUAL one).
    pub fn may_begin(phase: FinalizationPhase, already_finalized: bool) -> (r: Result<(), FinalizationError>)
        ensures
            match r {
                Ok(()) => !(already_finalized && phase == FinalizationPhase::Final),
                Err(FinalizationError::NotReady(m)) => already_finalized && phase == FinalizationPhase::Final
                    && m@ == "match already finalized; use an audited MANUAL version"@,
                Err(_) => false,
            },
    {
        if already_finalized && phase == FinalizationPhase::Final {
            return Err(
                FinalizationError::NotReady(owned("match already finalized; use an audited MANUAL version")),
            );
        }
        Ok(())
    }

    /// The verdict on the phase lock: one phase per match runs at a time.
    pub fn lock_verdict(inserted_rows: usize, match_id: &str) -> (r: Result<(), FinalizationError>)
        ensures
            match r {
                Ok(()) => inserted_rows > 0,
                Err(FinalizationError::Busy(m)) => inserted_rows == 0 && m@
                    == "phase already running for match "@ + match_id@,
                Err(_) => false,
            },
    {
        if inserted_rows == 0 {
            let mut m: Vec<char> = Vec::new();
            extend_str(&mut m, "phase already running for match ");
            extend_str(&mut m, match_id);
            return Err(FinalizationError::Busy(string_from_chars(&m)));
        }
        Ok(())
    }

    /// The version created for a phase: one past the highest so far.
    pub fn new_version(
        match_id: &str,
        dataset_id: &str,
        highest: i64,
        phase: FinalizationPhase,
    ) -> (r: FinalizationVersion)
        requires
            highest < i64::MAX,
        ensures
            r.match_id@ == match_id@,
            r.dataset_id@ == dataset_id@,
            r.version == highest + 1,
            r.phase@ == phase_name(phase),
    {
        FinalizationVersion {
            match_id: owned(match_id),
            dataset_id: owned(dataset_id),
            version: highest + 1,
            phase: owned(phase.as_str()),
        }
    }

    /// A running version completes once none of its phase's jobs is pending
    /// and, for a FINAL version, the match has a terminal state.
    pub fn ready_to_complete(pending: i64, terminal: bool, phase: &str) -> (r: bool)
        ensures
            r == (pending == 0 && (terminal || phase@ != "FINAL"@)),
    {
        pending == 0 && (terminal || !crate::text::str_eq(phase, "FINAL"))
    }

    /// The payload hash of the FINALIZED state row of a version.
    pub fn finalized_marker(version: i64) -> (r: String)
        ensures
            r@ == "finalized-"@ + int_text_of(version as int),
    {
        let mut m: Vec<char> = Vec::new();
        extend_str(&mut m, "finalized-");
        let n = int_to_text(version);
        extend_str(&mut m, n.as_str());
        string_from_chars(&m)
    }

    /// The `period_scores` section from the latest stored score texts: each
    /// list as it parses, null when it does not (see `period_scores_section`).
    pub fn stored_period_scores(home: &str, away: &str) -> (r: (Json, String, String))
        ensures
            r.0@ == JsonV::Object(
                seq![("away_scores"@, parsed_or_null(json_parse(away@))), ("home_scores"@, parsed_or_null(json_parse(home@)))],
            ),
            r.1@ == payload_hash_spec(r.0@),
            r.2@ == crate::json::canon(r.0@),
    {
        let h = match parse_json_text(home) {
            Ok(j) => j,
            Err(_) => Json::Null,
        };
        let a = match parse_json_text(away) {
            Ok(j) => j,
            Err(_) => Json::Null,
        };
        Self::period_scores_section(h, a)
    }

    /// The materialized `period_scores` section: the latest stored score
    /// lists (each as parsed, null when it does not parse), with its hash
    /// and JSON text.
    pub fn period_scores_section(home: Json, away: Json) -> (r: (Json, String, String))
        ensures
            r.0@ == JsonV::Object(seq![("away_scores"@, away@), ("home_scores"@, home@)]),
            r.1@ == payload_hash_spec(r.0@),
            r.2@ == crate::json::canon(r.0@),
    {
        let ghost hv = home@;
        let ghost av = away@;
        let mut f: Vec<(String, Json)> = Vec::new();
        f.push((owned("away_scores"), away));
        f.push((owned("home_scores"), home));
        proof {
            lemma_fields_view(f@);
            assert(fields_view(f@) =~= seq![("away_scores"@, av), ("home_scores"@, hv)]);
        }
        let data = Json::Object(f);
        let h = payload_hash(&data);
        let t = crate::json::json_text(&data);
        (data, h, t)
    }
}

/// The name of the column a definition adds (its first word).
pub fn column_name_of(definition: &str) -> (r: String)
    ensures
        r@ == crate::text::first_word(definition@),
{
    crate::text::first_word_exec(definition)
}

} // verus!
