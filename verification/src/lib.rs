//! Audit and removal of a local Grok CLI installation: the artifacts it
//! leaves, the credential exports in shell profiles, and the reachability of
//! the `grok` wrapper that the signed cmux application ships.
use vstd::prelude::*;

pub mod artifact_laws;
pub mod audit;
pub mod audit_laws;
pub mod bundle_laws;
pub mod credentials;
pub mod edits;
pub mod error;
pub mod export_laws;
pub mod guard;
pub mod lines;
pub mod paths;
pub mod removal;
pub mod removal_laws;
pub mod report;
pub mod run_laws;
pub mod sanitize_laws;
pub mod strip_laws;
pub mod targets;
pub mod text;

pub use audit::{ArtifactProbe, AuditFacts, CommandOutcome, ConfigProbe, ProbeOutcome};
pub use credentials::{contains_credential_export, is_credential_export, strip_credential_exports};
pub use edits::{
    is_grok_package, mirror_outcome, mirror_step, removal_method, MirrorEntryResult, MirrorStep,
    ProfileEdit, ReadOutcome, RemovalMethod,
};
pub use error::CleanupError;
pub use guard::{add_cmux_guard, CMUX_BUNDLED_BIN, CMUX_CLEAN_BIN};
pub use paths::{HomeDirectory, Platform};
pub use removal::{RemovalAction, RemovalEvent, RemovalRun};
pub use report::{EntryStatus, Report, ReportEntry};
pub use targets::{artifact_detail, CleanupEngine};

verus! {

} // verus!
