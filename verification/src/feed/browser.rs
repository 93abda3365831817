//! The owned browser's configuration, targets and the decisions made on
//! what its transport returns.  Launching the process and speaking the
//! DevTools protocol is the application's work.
use vstd::prelude::*;
use crate::feed::adapters::{SourceEnvelope, SourceLayer};
use crate::json::{Json, JsonV};
use crate::text::{chars_eq_str, chars_of, owned, str_eq};

verus! {

/// Declares `std::path::PathBuf` (browser executable and profile paths),
/// opaque to proofs.
#[verifier::external_type_specification]
#[verifier::external_body]
pub struct ExPathBuf(std::path::PathBuf);

/// How to launch the owned browser.
#[derive(Debug)]
pub struct OwnedBrowserConfig {
    pub executable: Option<std::path::PathBuf>,
    pub startup_timeout: std::time::Duration,
    pub profile_dir: Option<std::path::PathBuf>,
}

impl Default for OwnedBrowserConfig {
    /// No fixed executable or profile directory; a 15 s start-up timeout.
    fn default() -> (r: Self)
        ensures
            r.executable is None,
            r.profile_dir is None,
            r.startup_timeout == crate::assets::seconds(15),
    {
        OwnedBrowserConfig {
            executable: None,
            startup_timeout: crate::assets::duration_secs(15),
            profile_dir: None,
        }
    }
}

#[derive(Debug, Clone, Copy, PartialEq, Eq, Structural)]
pub enum BrowserHealth {
    Starting,
    Healthy,
    Stale,
    Disconnected,
    Stopped,
}

#[derive(Debug, Clone, Copy, PartialEq, Eq, Structural)]
pub enum TargetRole {
    Live,
    Detail,
}

/// A tab that the owned browser created for one sport.
#[derive(Debug, Clone)]
pub struct OwnedTarget {
    pub target_id: String,
    pub websocket_url: String,
    pub role: TargetRole,
    pub sport_id: i32,
    pub session_id: String,
}

#[derive(Debug, Clone)]
pub enum FeedBrowserError {
    NotOwned,
    Connect(String),
    Protocol(String),
}

/// Whether a target with this id is among the owned targets.
pub open spec fn owns(targets: Seq<OwnedTarget>, id: Seq<char>) -> bool {
    exists|i: int| 0 <= i < targets.len() && (#[trigger] targets[i]).target_id@ == id
}

/// Only targets this browser created may be connected to or closed.
pub fn owns_target(targets: &Vec<OwnedTarget>, id: &str) -> (r: bool)
    ensures
        r == owns(targets@, id@),
{
    let mut i: usize = 0;
    while i < targets.len()
        invariant
            i <= targets.len(),
            forall|k: int| 0 <= k < i ==> (#[trigger] targets@[k]).target_id@ != id@,
        decreases targets.len() - i,
    {
        if str_eq(targets[i].target_id.as_str(), id) {
            return true;
        }
        i = i + 1;
    }
    false
}

/// One evaluated fallback expression: its layer and what came back.
pub struct FallbackProbe {
    pub layer: SourceLayer,
    pub outcome: Result<Json, FeedBrowserError>,
}

pub open spec fn probe_kept(p: FallbackProbe) -> bool {
    p.outcome matches Ok(v) && v@ is Object
}

/// The probes that returned an object, in order.
pub open spec fn kept_probes(s: Seq<FallbackProbe>) -> Seq<FallbackProbe>
    decreases s.len(),
{
    if s.len() == 0 {
        s
    } else if probe_kept(s.last()) {
        kept_probes(s.drop_last()).push(s.last())
    } else {
        kept_probes(s.drop_last())
    }
}

/// The index of the last probe whose evaluation failed.
pub open spec fn last_failure(s: Seq<FallbackProbe>) -> Option<int>
    decreases s.len(),
{
    if s.len() == 0 {
        None
    } else if s.last().outcome is Err {
        Some(s.len() - 1)
    } else {
        last_failure(s.drop_last())
    }
}

/// `FeedBrowserError` with its texts as character sequences.
pub enum FeedBrowserErrorV {
    NotOwned,
    Connect(Seq<char>),
    Protocol(Seq<char>),
}

impl View for FeedBrowserError {
    type V = FeedBrowserErrorV;

    open spec fn view(&self) -> FeedBrowserErrorV {
        match self {
            FeedBrowserError::NotOwned => FeedBrowserErrorV::NotOwned,
            FeedBrowserError::Connect(s) => FeedBrowserErrorV::Connect(s@),
            FeedBrowserError::Protocol(s) => FeedBrowserErrorV::Protocol(s@),
        }
    }
}

pub fn copy_browser_error(e: &FeedBrowserError) -> (r: FeedBrowserError)
    ensures
        r@ == e@,
{
    match e {
        FeedBrowserError::NotOwned => FeedBrowserError::NotOwned,
        FeedBrowserError::Connect(s) => FeedBrowserError::Connect(owned(s.as_str())),
        FeedBrowserError::Protocol(s) => FeedBrowserError::Protocol(owned(s.as_str())),
    }
}

/// Keeps the fallback captures that returned an object, in order.  With none
/// kept, the error of the last failed evaluation is returned, or a protocol
/// error when every evaluation returned something else.
pub fn select_fallbacks(probes: &Vec<FallbackProbe>) -> (r: Result<
    Vec<SourceEnvelope>,
    FeedBrowserError,
>)
    ensures
        match r {
            Ok(v) => {
                &&& v@.len() > 0
                &&& v@.len() == kept_probes(probes@).len()
                &&& forall|i: int|
                    0 <= i < v@.len() ==> {
                        &&& (#[trigger] v@[i]).layer == kept_probes(probes@)[i].layer
                        &&& v@[i].payload@ == kept_probes(probes@)[i].outcome->Ok_0@
                    }
            },
            Err(e) => kept_probes(probes@).len() == 0 && match last_failure(probes@) {
                Some(k) => e@ == probes@[k].outcome->Err_0@,
                None => e@ == FeedBrowserErrorV::Protocol("no fallback source available"@),
            },
        },
{
    let mut sources: Vec<SourceEnvelope> = Vec::new();
    let mut last_error: Option<FeedBrowserError> = None;
    let mut i: usize = 0;
    while i < probes.len()
        invariant
            i <= probes.len(),
            sources@.len() == kept_probes(probes@.take(i as int)).len(),
            forall|k: int|
                0 <= k < sources@.len() ==> {
                    &&& (#[trigger] sources@[k]).layer == kept_probes(probes@.take(i as int))[k].layer
                    &&& sources@[k].payload@ == kept_probes(probes@.take(i as int))[k].outcome->Ok_0@
                },
            match last_failure(probes@.take(i as int)) {
                Some(k) => last_error matches Some(e) && 0 <= k < i && e@
                    == probes@[k].outcome->Err_0@,
                None => last_error is None,
            },
        decreases probes.len() - i,
    {
        assert(probes@.take(i + 1).drop_last() =~= probes@.take(i as int));
        match &probes[i].outcome {
            Ok(v) => {
                match v {
                    Json::Object(_) => {
                        sources.push(SourceEnvelope::new(probes[i].layer, crate::json::json_clone(v)));
                    },
                    _ => {},
                }
            },
            Err(e) => {
                last_error = Some(copy_browser_error(e));
            },
        }
        i = i + 1;
    }
    assert(probes@.take(probes@.len() as int) =~= probes@);
    if sources.len() == 0 {
        return match last_error {
            Some(e) => Err(e),
            None => Err(FeedBrowserError::Protocol(owned("no fallback source available"))),
        };
    }
    Ok(sources)
}

} // verus!
