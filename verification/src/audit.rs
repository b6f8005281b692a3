//! The read-only audit and the dry-run plan: from what was observed on the
//! machine to the report. Reports carry paths and statuses only; a
//! credential's value never reaches them.
use vstd::prelude::*;
use crate::credentials::{content_exports, contains_credential_export, GROK_API_KEY, XAI_API_KEY};
use crate::guard::CMUX_BUNDLED_BIN;
use crate::paths::{join_path, Platform};
use crate::report::{entry_view, entry_views, make_entry, push_entry, EntryStatus, EntryView, Report, ReportEntry};
use crate::targets::{artifact_detail, artifact_detail_text, CleanupEngine};
use crate::text::concat;

verus! {

/// What looking up a path (without following a final link) found.
#[derive(Debug, Clone, Copy, PartialEq, Eq, Structural)]
pub enum ProbeOutcome {
    Exists,
    NotFound,
    /// The lookup failed for another reason.
    Failed,
}

/// How running a helper command went.
#[derive(Debug, Clone, PartialEq, Eq)]
pub enum CommandOutcome {
    /// It ran to the end, with this exit status and output.
    Ran { success: bool, stdout: Vec<u8> },
    /// The program does not exist on this machine.
    NotFound,
    /// It could not be started for another reason.
    Failed,
}

/// A known artifact path and what looking it up found.
#[derive(Debug, Clone, PartialEq, Eq)]
pub struct ArtifactProbe {
    pub path: String,
    pub outcome: ProbeOutcome,
}

/// A shell profile and its text (`None` when it could not be read).
#[derive(Debug, Clone, PartialEq, Eq)]
pub struct ConfigProbe {
    pub path: String,
    pub content: Option<String>,
}

/// Everything the audit observes on the machine.
#[derive(Debug, Clone, PartialEq, Eq)]
pub struct AuditFacts {
    /// The known artifact paths (`CleanupEngine::known_artifact_paths`), each
    /// with what looking it up found.
    pub artifacts: Vec<ArtifactProbe>,
    /// The shell profiles (`CleanupEngine::shell_config_paths`) and their text.
    pub shell_configs: Vec<ConfigProbe>,
    /// For `GROK_API_KEY` and then `XAI_API_KEY`: how the query of the
    /// persistent environment store went (`CleanupEngine::env_query_command`).
    pub platform_env: [CommandOutcome; 2],
    /// For `GROK_API_KEY` and then `XAI_API_KEY`: whether this process has it set.
    pub process_env: [bool; 2],
    /// Whether the signed cmux application ships a `grok` wrapper.
    pub cmux_wrapper_present: bool,
}

pub open spec fn probe_status(o: ProbeOutcome) -> EntryStatus {
    match o {
        ProbeOutcome::Exists => EntryStatus::Present,
        ProbeOutcome::NotFound => EntryStatus::Absent,
        ProbeOutcome::Failed => EntryStatus::Failed,
    }
}

pub open spec fn artifact_entry(w: Platform, p: ArtifactProbe) -> EntryView {
    (p.path@, probe_status(p.outcome), artifact_detail_text(w, p.path@))
}

pub open spec fn artifact_entries(w: Platform, ps: Seq<ArtifactProbe>) -> Seq<EntryView>
    decreases ps.len(),
{
    if ps.len() == 0 {
        seq![]
    } else {
        artifact_entries(w, ps.drop_last()).push(artifact_entry(w, ps.last()))
    }
}

pub open spec fn config_text(c: ConfigProbe) -> Seq<char> {
    match c.content {
        Some(t) => t@,
        None => seq![],
    }
}

pub open spec fn config_entry(c: ConfigProbe, key: Seq<char>) -> EntryView {
    let present = content_exports(config_text(c), key);
    (
        c.path@ + ":"@ + key,
        if present {
            EntryStatus::Present
        } else {
            EntryStatus::Absent
        },
        if present {
            "credential export detected; value not inspected"@
        } else {
            "no credential export"@
        },
    )
}

pub open spec fn config_entries(cs: Seq<ConfigProbe>) -> Seq<EntryView>
    decreases cs.len(),
{
    if cs.len() == 0 {
        seq![]
    } else {
        config_entries(cs.drop_last()) + seq![
            config_entry(cs.last(), GROK_API_KEY@),
            config_entry(cs.last(), XAI_API_KEY@),
        ]
    }
}

/// The command that queries the persistent environment store for `key`:
/// `launchctl getenv` on macOS, `reg query` on Windows, none elsewhere.
pub open spec fn env_query_argv(w: Platform, key: Seq<char>) -> Option<Seq<Seq<char>>> {
    match w {
        Platform::MacOs => Some(seq!["launchctl"@, "getenv"@, key]),
        Platform::Windows => Some(seq!["reg"@, "query"@, "HKCU\\Environment"@, "/v"@, key]),
        Platform::Other => None,
    }
}

/// The command that removes `key` from the persistent environment store.
pub open spec fn env_clear_argv(w: Platform, key: Seq<char>) -> Option<Seq<Seq<char>>> {
    match w {
        Platform::MacOs => Some(seq!["launchctl"@, "unsetenv"@, key]),
        Platform::Windows => Some(
            seq!["reg"@, "delete"@, "HKCU\\Environment"@, "/v"@, key, "/f"@],
        ),
        Platform::Other => None,
    }
}

/// `u8::is_ascii_whitespace`.
pub open spec fn is_ascii_ws(b: u8) -> bool {
    b == 0x20 || b == 0x09 || b == 0x0a || b == 0x0c || b == 0x0d
}

pub open spec fn all_ascii_ws(bytes: Seq<u8>) -> bool {
    forall|i: int| 0 <= i < bytes.len() ==> is_ascii_ws(#[trigger] bytes[i])
}

pub open spec fn env_target(w: Platform, key: Seq<char>) -> Seq<char> {
    match w {
        Platform::MacOs => "launchd:"@ + key,
        Platform::Windows => "windows-user-env:"@ + key,
        Platform::Other => "persistent-env:"@ + key,
    }
}

/// The audit entry for `key` in the persistent environment store. On macOS
/// the key is present when `launchctl getenv` printed anything but white
/// space; on Windows when `reg query` succeeded; elsewhere there is no store.
pub open spec fn env_audit_entry(w: Platform, key: Seq<char>, o: CommandOutcome) -> EntryView {
    match w {
        Platform::MacOs => (
            env_target(w, key),
            match o {
                CommandOutcome::Ran { stdout, .. } => if all_ascii_ws(stdout@) {
                    EntryStatus::Absent
                } else {
                    EntryStatus::Present
                },
                CommandOutcome::NotFound => EntryStatus::Unavailable,
                CommandOutcome::Failed => EntryStatus::Failed,
            },
            match o {
                CommandOutcome::Ran { .. } => "value never displayed"@,
                CommandOutcome::NotFound => "launchctl is unavailable on this machine"@,
                CommandOutcome::Failed => "launchctl could not be queried"@,
            },
        ),
        Platform::Windows => (
            env_target(w, key),
            match o {
                CommandOutcome::Ran { success, .. } => if success {
                    EntryStatus::Present
                } else {
                    EntryStatus::Absent
                },
                CommandOutcome::NotFound => EntryStatus::Unavailable,
                CommandOutcome::Failed => EntryStatus::Failed,
            },
            match o {
                CommandOutcome::Ran { success, .. } => if success {
                    "value never displayed"@
                } else {
                    "user environment value absent"@
                },
                CommandOutcome::NotFound => "reg.exe is unavailable on this machine"@,
                CommandOutcome::Failed => "user environment could not be queried"@,
            },
        ),
        Platform::Other => (
            env_target(w, key),
            EntryStatus::Unavailable,
            "persistent environment storage is shell-specific on this platform"@,
        ),
    }
}

/// The entry for `key` after trying to remove it from the persistent store.
pub open spec fn env_clear_entry(w: Platform, key: Seq<char>, o: CommandOutcome) -> EntryView {
    match w {
        Platform::Other => (
            env_target(w, key),
            EntryStatus::Unavailable,
            "remove the export from the shell profile and restart the shell"@,
        ),
        _ => (
            env_target(w, key),
            match o {
                CommandOutcome::Ran { success, .. } => if success {
                    EntryStatus::Removed
                } else {
                    EntryStatus::Absent
                },
                CommandOutcome::NotFound => EntryStatus::Unavailable,
                CommandOutcome::Failed => EntryStatus::Failed,
            },
            "cleared without reading the value"@,
        ),
    }
}

/// The entry for `key` in this process's environment.
pub open spec fn process_env_entry(key: Seq<char>, set: bool) -> EntryView {
    (
        "current-process-env:"@ + key,
        if set {
            EntryStatus::Present
        } else {
            EntryStatus::Absent
        },
        "parent shell requires a restart; value never displayed"@,
    )
}

pub open spec fn cmux_wrapper_path() -> Seq<char> {
    join_path(Platform::MacOs, CMUX_BUNDLED_BIN@, "grok"@)
}

pub open spec fn cmux_entries(w: Platform, present: bool) -> Seq<EntryView> {
    if w == Platform::MacOs && present {
        seq![
            (
                cmux_wrapper_path(),
                EntryStatus::PreservedByDesign,
                "signed cmux wrapper is preserved; shell reachability is guarded"@,
            ),
        ]
    } else {
        seq![]
    }
}

/// The audit's entries: the artifacts, each profile for each key, each key in
/// the persistent store and in this process, and the cmux wrapper on macOS.
pub open spec fn audit_entries(w: Platform, f: AuditFacts) -> Seq<EntryView> {
    artifact_entries(w, f.artifacts@) + config_entries(f.shell_configs@) + seq![
        env_audit_entry(w, GROK_API_KEY@, f.platform_env@[0]),
        process_env_entry(GROK_API_KEY@, f.process_env@[0]),
        env_audit_entry(w, XAI_API_KEY@, f.platform_env@[1]),
        process_env_entry(XAI_API_KEY@, f.process_env@[1]),
    ] + cmux_entries(w, f.cmux_wrapper_present)
}

/// The dry-run view of an audit entry: what is present would be removed.
pub open spec fn planned_entry(e: EntryView) -> EntryView {
    if e.1 == EntryStatus::Present {
        (e.0, EntryStatus::WouldRemove, "would remove with --apply"@)
    } else {
        e
    }
}

fn strings(items: &[&str]) -> (v: Vec<String>)
    ensures
        v@.len() == items@.len(),
        forall|i: int| 0 <= i < items@.len() ==> (#[trigger] v@[i])@ == items@[i]@,
{
    let mut v: Vec<String> = Vec::new();
    let mut i: usize = 0;
    while i < items.len()
        invariant
            i <= items@.len(),
            v@.len() == i,
            forall|k: int| 0 <= k < i ==> (#[trigger] v@[k])@ == items@[k]@,
        decreases items@.len() - i,
    {
        v.push(items[i].to_string());
        i = i + 1;
    }
    v
}

/// Bytes that are all ASCII white space.
fn ascii_ws_only(bytes: &Vec<u8>) -> (b: bool)
    ensures
        b == all_ascii_ws(bytes@),
{
    let mut i: usize = 0;
    while i < bytes.len()
        invariant
            i <= bytes.len(),
            forall|k: int| 0 <= k < i ==> is_ascii_ws(#[trigger] bytes@[k]),
        decreases bytes.len() - i,
    {
        let b = bytes[i];
        if !(b == 0x20 || b == 0x09 || b == 0x0a || b == 0x0c || b == 0x0d) {
            return false;
        }
        i = i + 1;
    }
    true
}

impl CleanupEngine {
    /// The prefix of the report target for a key in the persistent store.
    fn env_target(&self, key: &str) -> (t: String)
        ensures
            t@ == env_target(self.platform_view(), key@),
    {
        match self.platform() {
            Platform::MacOs => concat("launchd:", key),
            Platform::Windows => concat("windows-user-env:", key),
            Platform::Other => concat("persistent-env:", key),
        }
    }

    /// The command (program and arguments) that queries the persistent
    /// environment store for `key`, if this platform has one.
    pub fn env_query_command(&self, key: &str) -> (c: Option<Vec<String>>)
        ensures
            match env_query_argv(self.platform_view(), key@) {
                Some(argv) => c matches Some(v) && v@.len() == argv.len() && forall|i: int|
                    0 <= i < argv.len() ==> (#[trigger] v@[i])@ == argv[i],
                None => c is None,
            },
    {
        match self.platform() {
            Platform::MacOs => {
                let v = strings(&["launchctl", "getenv", key]);
                Some(v)
            },
            Platform::Windows => {
                let v = strings(&["reg", "query", "HKCU\\Environment", "/v", key]);
                Some(v)
            },
            Platform::Other => None,
        }
    }

    /// The command that removes `key` from the persistent environment store,
    /// if this platform has one.
    pub fn env_clear_command(&self, key: &str) -> (c: Option<Vec<String>>)
        ensures
            match env_clear_argv(self.platform_view(), key@) {
                Some(argv) => c matches Some(v) && v@.len() == argv.len() && forall|i: int|
                    0 <= i < argv.len() ==> (#[trigger] v@[i])@ == argv[i],
                None => c is None,
            },
    {
        match self.platform() {
            Platform::MacOs => {
                let v = strings(&["launchctl", "unsetenv", key]);
                Some(v)
            },
            Platform::Windows => {
                let v = strings(&["reg", "delete", "HKCU\\Environment", "/v", key, "/f"]);
                Some(v)
            },
            Platform::Other => None,
        }
    }

    /// The audit entry for `key` in the persistent environment store, given
    /// how the query command went (ignored where there is no store).
    pub fn audit_platform_env(&self, key: &str, outcome: &CommandOutcome) -> (e: ReportEntry)
        ensures
            entry_view(e) == env_audit_entry(self.platform_view(), key@, *outcome),
    {
        let target = self.env_target(key);
        match self.platform() {
            Platform::MacOs => {
                let (status, detail) = match outcome {
                    CommandOutcome::Ran { stdout, .. } => (
                        if ascii_ws_only(stdout) {
                            EntryStatus::Absent
                        } else {
                            EntryStatus::Present
                        },
                        "value never displayed",
                    ),
                    CommandOutcome::NotFound => (
                        EntryStatus::Unavailable,
                        "launchctl is unavailable on this machine",
                    ),
                    CommandOutcome::Failed => (EntryStatus::Failed, "launchctl could not be queried"),
                };
                make_entry(target, status, detail.to_string())
            },
            Platform::Windows => {
                let (status, detail) = match outcome {
                    CommandOutcome::Ran { success, .. } => if *success {
                        (EntryStatus::Present, "value never displayed")
                    } else {
                        (EntryStatus::Absent, "user environment value absent")
                    },
                    CommandOutcome::NotFound => (
                        EntryStatus::Unavailable,
                        "reg.exe is unavailable on this machine",
                    ),
                    CommandOutcome::Failed => (
                        EntryStatus::Failed,
                        "user environment could not be queried",
                    ),
                };
                make_entry(target, status, detail.to_string())
            },
            Platform::Other => make_entry(
                target,
                EntryStatus::Unavailable,
                "persistent environment storage is shell-specific on this platform".to_string(),
            ),
        }
    }

    /// The entry for `key` after the removal command went as `outcome`
    /// (ignored where there is no store).
    pub fn clear_platform_env(&self, key: &str, outcome: &CommandOutcome) -> (e: ReportEntry)
        ensures
            entry_view(e) == env_clear_entry(self.platform_view(), key@, *outcome),
    {
        let target = self.env_target(key);
        if self.platform() == Platform::Other {
            return make_entry(
                target,
                EntryStatus::Unavailable,
                "remove the export from the shell profile and restart the shell".to_string(),
            );
        }
        let status = match outcome {
            CommandOutcome::Ran { success, .. } => if *success {
                EntryStatus::Removed
            } else {
                EntryStatus::Absent
            },
            CommandOutcome::NotFound => EntryStatus::Unavailable,
            CommandOutcome::Failed => EntryStatus::Failed,
        };
        make_entry(target, status, "cleared without reading the value".to_string())
    }

    /// The entry for `key` in this process's environment.
    pub fn audit_process_env(&self, key: &str, set: bool) -> (e: ReportEntry)
        ensures
            entry_view(e) == process_env_entry(key@, set),
    {
        make_entry(
            concat("current-process-env:", key),
            if set {
                EntryStatus::Present
            } else {
                EntryStatus::Absent
            },
            "parent shell requires a restart; value never displayed".to_string(),
        )
    }

    /// The read-only audit of what was observed.
    pub fn audit(&self, facts: &AuditFacts) -> (r: Report)
        ensures
            r.operation@ == "audit"@,
            entry_views(r.entries@) == audit_entries(self.platform_view(), *facts),
    {
        let w = self.platform();
        let mut entries: Vec<ReportEntry> = Vec::new();
        let mut i: usize = 0;
        while i < facts.artifacts.len()
            invariant
                i <= facts.artifacts.len(),
                w == self.platform_view(),
                entry_views(entries@) == artifact_entries(w, facts.artifacts@.take(i as int)),
            decreases facts.artifacts.len() - i,
        {
            let p = &facts.artifacts[i];
            let status = match p.outcome {
                ProbeOutcome::Exists => EntryStatus::Present,
                ProbeOutcome::NotFound => EntryStatus::Absent,
                ProbeOutcome::Failed => EntryStatus::Failed,
            };
            let e = make_entry(p.path.clone(), status, artifact_detail(w, p.path.as_str()));
            push_entry(&mut entries, e);
            assert(facts.artifacts@.take(i + 1).drop_last() =~= facts.artifacts@.take(i as int));
            i = i + 1;
        }
        assert(facts.artifacts@.take(i as int) =~= facts.artifacts@);
        let ghost after_artifacts = entry_views(entries@);
        let mut j: usize = 0;
        while j < facts.shell_configs.len()
            invariant
                j <= facts.shell_configs.len(),
                entry_views(entries@) == after_artifacts + config_entries(
                    facts.shell_configs@.take(j as int),
                ),
            decreases facts.shell_configs.len() - j,
        {
            let c = &facts.shell_configs[j];
            let empty = String::new();
            let text: &String = match &c.content {
                Some(t) => t,
                None => &empty,
            };
            assert(text@ == config_text(*c));
            let target = concat(c.path.as_str(), ":");
            let grok = contains_credential_export(text.as_str(), GROK_API_KEY);
            push_entry(
                &mut entries,
                make_entry(
                    concat(target.as_str(), GROK_API_KEY),
                    if grok {
                        EntryStatus::Present
                    } else {
                        EntryStatus::Absent
                    },
                    if grok {
                        "credential export detected; value not inspected".to_string()
                    } else {
                        "no credential export".to_string()
                    },
                ),
            );
            let xai = contains_credential_export(text.as_str(), XAI_API_KEY);
            push_entry(
                &mut entries,
                make_entry(
                    concat(target.as_str(), XAI_API_KEY),
                    if xai {
                        EntryStatus::Present
                    } else {
                        EntryStatus::Absent
                    },
                    if xai {
                        "credential export detected; value not inspected".to_string()
                    } else {
                        "no credential export".to_string()
                    },
                ),
            );
            assert(facts.shell_configs@.take(j + 1).drop_last() =~= facts.shell_configs@.take(
                j as int,
            ));
            j = j + 1;
        }
        assert(facts.shell_configs@.take(j as int) =~= facts.shell_configs@);
        push_entry(&mut entries, self.audit_platform_env(GROK_API_KEY, &facts.platform_env[0]));
        push_entry(&mut entries, self.audit_process_env(GROK_API_KEY, facts.process_env[0]));
        push_entry(&mut entries, self.audit_platform_env(XAI_API_KEY, &facts.platform_env[1]));
        push_entry(&mut entries, self.audit_process_env(XAI_API_KEY, facts.process_env[1]));
        if w == Platform::MacOs && facts.cmux_wrapper_present {
            let path = concat(CMUX_BUNDLED_BIN, "/grok");
            proof {
                reveal_strlit("/grok");
                reveal_strlit("grok");
                reveal_strlit("/Applications/cmux.app/Contents/Resources/bin");
                assert(CMUX_BUNDLED_BIN@ == "/Applications/cmux.app/Contents/Resources/bin"@);
                assert("/grok"@ =~= seq!['/'] + "grok"@);
                assert(path@ =~= cmux_wrapper_path());
            }
            push_entry(
                &mut entries,
                make_entry(
                    path,
                    EntryStatus::PreservedByDesign,
                    "signed cmux wrapper is preserved; shell reachability is guarded".to_string(),
                ),
            );
        }
        assert(entry_views(entries@) =~= audit_entries(w, *facts));
        Report { operation: "audit".to_string(), entries }
    }

    /// The dry run of the removal: the audit, with every present target
    /// marked as one that `--apply` would remove.
    pub fn plan_removal(&self, facts: &AuditFacts) -> (r: Report)
        ensures
            r.operation@ == "remove (dry-run)"@,
            entry_views(r.entries@) == audit_entries(self.platform_view(), *facts).map_values(
                |e: EntryView| planned_entry(e),
            ),
    {
        let audit = self.audit(facts);
        let ghost seen = entry_views(audit.entries@);
        let mut entries: Vec<ReportEntry> = Vec::new();
        let mut i: usize = 0;
        while i < audit.entries.len()
            invariant
                i <= audit.entries.len(),
                seen == entry_views(audit.entries@),
                entry_views(entries@) == seen.take(i as int).map_values(
                    |e: EntryView| planned_entry(e),
                ),
            decreases audit.entries.len() - i,
        {
            let e = &audit.entries[i];
            assert(entry_view(*e) == seen[i as int]);
            let planned = if e.status == EntryStatus::Present {
                make_entry(e.target.clone(), EntryStatus::WouldRemove, "would remove with --apply".to_string())
            } else {
                make_entry(e.target.clone(), e.status, e.detail.clone())
            };
            push_entry(&mut entries, planned);
            assert(seen.take(i + 1).map_values(|e: EntryView| planned_entry(e)) =~= seen.take(
                i as int,
            ).map_values(|e: EntryView| planned_entry(e)).push(planned_entry(seen[i as int])));
            i = i + 1;
        }
        assert(seen.take(i as int) =~= seen);
        Report { operation: "remove (dry-run)".to_string(), entries }
    }
}

} // verus!
