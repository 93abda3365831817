//! Recovery of matches left unresolved by a feed outage, and the versioned
//! finalization of a finished match.  The application runs the SQL; the
//! decisions are here.
pub mod finalizer;
pub mod manager;

pub use finalizer::{FinalizationError, FinalizationPhase, Finalizer};
pub use manager::{RecoveryConfig, RecoveryJob, RecoveryManager, RecoveryOutcome};
