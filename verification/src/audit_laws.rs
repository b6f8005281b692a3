//! What the audit and the dry run promise about their reports.
use vstd::prelude::*;
use crate::audit::{
    all_ascii_ws, audit_entries, config_entries, config_entry, config_text, env_audit_entry,
    planned_entry, AuditFacts, CommandOutcome, ConfigProbe,
};
use crate::credentials::{content_exports, GROK_API_KEY, XAI_API_KEY};
use crate::paths::Platform;
use crate::report::{EntryStatus, EntryView};

verus! {

/// Two lists of profiles that differ at most in their text, and agree on
/// which key each one exports.
pub open spec fn same_detections(a: Seq<ConfigProbe>, b: Seq<ConfigProbe>) -> bool {
    &&& a.len() == b.len()
    &&& forall|i: int|
        0 <= i < a.len() ==> {
            &&& (#[trigger] a[i]).path@ == b[i].path@
            &&& content_exports(config_text(a[i]), GROK_API_KEY@) == content_exports(
                config_text(b[i]),
                GROK_API_KEY@,
            )
            &&& content_exports(config_text(a[i]), XAI_API_KEY@) == content_exports(
                config_text(b[i]),
                XAI_API_KEY@,
            )
        }
}

proof fn lemma_config_entries_same(a: Seq<ConfigProbe>, b: Seq<ConfigProbe>)
    requires
        same_detections(a, b),
    ensures
        config_entries(a) == config_entries(b),
    decreases a.len(),
{
    if a.len() > 0 {
        let a0 = a.drop_last();
        let b0 = b.drop_last();
        assert forall|i: int| 0 <= i < a0.len() implies {
            &&& (#[trigger] a0[i]).path@ == b0[i].path@
            &&& content_exports(config_text(a0[i]), GROK_API_KEY@) == content_exports(
                config_text(b0[i]),
                GROK_API_KEY@,
            )
            &&& content_exports(config_text(a0[i]), XAI_API_KEY@) == content_exports(
                config_text(b0[i]),
                XAI_API_KEY@,
            )
        } by {
            assert(a0[i] == a[i] && b0[i] == b[i]);
        }
        lemma_config_entries_same(a0, b0);
        let x = a[a.len() - 1];
        let y = b[b.len() - 1];
        assert(config_entry(x, GROK_API_KEY@) == config_entry(y, GROK_API_KEY@));
        assert(config_entry(x, XAI_API_KEY@) == config_entry(y, XAI_API_KEY@));
    }
}

/// Two answers of a query of the environment store that agree on everything
/// but the value it printed: the same kind of outcome, the same success, and
/// both blank or both not.
pub open spec fn same_store_answer(a: CommandOutcome, b: CommandOutcome) -> bool {
    match (a, b) {
        (
            CommandOutcome::Ran { success: s1, stdout: o1 },
            CommandOutcome::Ran { success: s2, stdout: o2 },
        ) => s1 == s2 && all_ascii_ws(o1@) == all_ascii_ws(o2@),
        (CommandOutcome::NotFound, CommandOutcome::NotFound) => true,
        (CommandOutcome::Failed, CommandOutcome::Failed) => true,
        _ => false,
    }
}

/// The audit never needs a credential's value: two machines whose profiles
/// differ only in text that does not change which keys are exported, and
/// whose environment stores differ only in the values they hold, get the
/// same report.
pub proof fn law_audit_sees_only_export_presence(w: Platform, f: AuditFacts, g: AuditFacts)
    requires
        f.artifacts@ == g.artifacts@,
        same_detections(f.shell_configs@, g.shell_configs@),
        same_store_answer(f.platform_env@[0], g.platform_env@[0]),
        same_store_answer(f.platform_env@[1], g.platform_env@[1]),
        f.process_env@ == g.process_env@,
        f.cmux_wrapper_present == g.cmux_wrapper_present,
    ensures
        audit_entries(w, f) == audit_entries(w, g),
{
    lemma_config_entries_same(f.shell_configs@, g.shell_configs@);
    assert(env_audit_entry(w, GROK_API_KEY@, f.platform_env@[0]) == env_audit_entry(
        w,
        GROK_API_KEY@,
        g.platform_env@[0],
    ));
    assert(env_audit_entry(w, XAI_API_KEY@, f.platform_env@[1]) == env_audit_entry(
        w,
        XAI_API_KEY@,
        g.platform_env@[1],
    ));
}

/// The dry run lists the audit's targets in the audit's order; what the
/// audit found present is marked as what `--apply` would remove, and every
/// other entry is the audit's own. Nothing is reported present.
pub proof fn law_plan_marks_present_targets(entries: Seq<EntryView>)
    ensures
        ({
            let planned = entries.map_values(|e: EntryView| planned_entry(e));
            &&& planned.len() == entries.len()
            &&& forall|i: int|
                0 <= i < entries.len() ==> {
                    &&& (#[trigger] planned[i]).0 == entries[i].0
                    &&& planned[i].1 != EntryStatus::Present
                    &&& (planned[i].1 == EntryStatus::WouldRemove) == (entries[i].1
                        == EntryStatus::Present || entries[i].1 == EntryStatus::WouldRemove)
                    &&& (entries[i].1 != EntryStatus::Present ==> planned[i] == entries[i])
                }
        }),
{
}

proof fn lemma_artifact_entries_len(w: Platform, ps: Seq<crate::audit::ArtifactProbe>)
    ensures
        crate::audit::artifact_entries(w, ps).len() == ps.len(),
    decreases ps.len(),
{
    if ps.len() > 0 {
        lemma_artifact_entries_len(w, ps.drop_last());
    }
}

proof fn lemma_config_entries_at(cs: Seq<ConfigProbe>, i: int)
    requires
        0 <= i < cs.len(),
    ensures
        config_entries(cs).len() == 2 * cs.len(),
        config_entries(cs)[2 * i] == config_entry(cs[i], GROK_API_KEY@),
        config_entries(cs)[2 * i + 1] == config_entry(cs[i], XAI_API_KEY@),
    decreases cs.len(),
{
    let c0 = cs.drop_last();
    if i < c0.len() {
        lemma_config_entries_at(c0, i);
        assert(c0[i] == cs[i]);
    } else if c0.len() > 0 {
        lemma_config_entries_at(c0, 0);
    } else {
        assert(config_entries(c0) == Seq::<EntryView>::empty());
    }
}

/// Each profile gets one audit entry per key, Grok's first, right after the
/// artifacts' entries: `<path>:<key>`, present exactly when some line of the
/// profile exports that key (whatever the other key does), with a detail
/// that says so and never shows a value; an unreadable profile reads as
/// empty.
pub proof fn law_audit_profile_entries(w: Platform, f: AuditFacts, i: int)
    requires
        0 <= i < f.shell_configs.len(),
    ensures
        ({
            let c = f.shell_configs@[i];
            let text = match c.content {
                Some(t) => t@,
                None => Seq::<char>::empty(),
            };
            let base = f.artifacts.len() + 2 * i;
            let es = audit_entries(w, f);
            &&& es[base] == (
                c.path@ + ":"@ + "GROK_API_KEY"@,
                if content_exports(text, "GROK_API_KEY"@) {
                    EntryStatus::Present
                } else {
                    EntryStatus::Absent
                },
                if content_exports(text, "GROK_API_KEY"@) {
                    "credential export detected; value not inspected"@
                } else {
                    "no credential export"@
                },
            )
            &&& es[base + 1] == (
                c.path@ + ":"@ + "XAI_API_KEY"@,
                if content_exports(text, "XAI_API_KEY"@) {
                    EntryStatus::Present
                } else {
                    EntryStatus::Absent
                },
                if content_exports(text, "XAI_API_KEY"@) {
                    "credential export detected; value not inspected"@
                } else {
                    "no credential export"@
                },
            )
        }),
{
    reveal_strlit("GROK_API_KEY");
    reveal_strlit("XAI_API_KEY");
    assert(GROK_API_KEY@ == "GROK_API_KEY"@);
    assert(XAI_API_KEY@ == "XAI_API_KEY"@);
    lemma_artifact_entries_len(w, f.artifacts@);
    lemma_config_entries_at(f.shell_configs@, i);
    let a = crate::audit::artifact_entries(w, f.artifacts@);
    let cs = config_entries(f.shell_configs@);
    let base = f.artifacts.len() + 2 * i;
    let es = audit_entries(w, f);
    assert(es[base] == cs[2 * i]);
    assert(es[base + 1] == cs[2 * i + 1]);
}

/// What the audit reports about each known artifact, in the order of the
/// probes: its path, present when looking it up found it, absent when it
/// does not exist, failed when looking it up failed.
pub proof fn law_audit_artifact_entries(w: Platform, f: AuditFacts, i: int)
    requires
        0 <= i < f.artifacts.len(),
    ensures
        audit_entries(w, f)[i].0 == f.artifacts@[i].path@,
        audit_entries(w, f)[i].1 == match f.artifacts@[i].outcome {
            crate::audit::ProbeOutcome::Exists => EntryStatus::Present,
            crate::audit::ProbeOutcome::NotFound => EntryStatus::Absent,
            crate::audit::ProbeOutcome::Failed => EntryStatus::Failed,
        },
        audit_entries(w, f)[i].2 == crate::targets::artifact_detail_text(w, f.artifacts@[i].path@),
{
    lemma_artifact_entries_at(w, f.artifacts@, i);
    lemma_artifact_entries_len(w, f.artifacts@);
}

proof fn lemma_artifact_entries_at(w: Platform, ps: Seq<crate::audit::ArtifactProbe>, i: int)
    requires
        0 <= i < ps.len(),
    ensures
        crate::audit::artifact_entries(w, ps)[i] == crate::audit::artifact_entry(w, ps[i]),
    decreases ps.len(),
{
    lemma_artifact_entries_len(w, ps.drop_last());
    if i < ps.len() - 1 {
        lemma_artifact_entries_at(w, ps.drop_last(), i);
    }
}

/// After the profiles the audit reports, for `GROK_API_KEY` and then
/// `XAI_API_KEY`, the persistent store and then this process. On macOS the
/// store is launchd: present when `launchctl getenv` printed anything but
/// white space, absent otherwise, unavailable without launchctl, failed
/// when it could not be queried. On Windows it is the user environment:
/// present when `reg query` succeeded, absent when it failed, unavailable
/// without reg.exe. Elsewhere there is no store to ask. The process entry is
/// present exactly when the key is set. No value is ever shown. On macOS,
/// with the cmux wrapper there, the last entry says it is preserved.
pub proof fn law_audit_environment_entries(w: Platform, f: AuditFacts, kk: int)
    requires
        kk == 0 || kk == 1,
    ensures
        ({
            let es = audit_entries(w, f);
            let base = f.artifacts.len() + 2 * f.shell_configs.len() + 2 * kk;
            let key = if kk == 0 {
                "GROK_API_KEY"@
            } else {
                "XAI_API_KEY"@
            };
            let o = f.platform_env@[kk];
            &&& es.len() == base - 2 * kk + 4 + if w == Platform::MacOs
                && f.cmux_wrapper_present {
                1int
            } else {
                0int
            }
            &&& es[base] == match w {
                Platform::MacOs => (
                    "launchd:"@ + key,
                    match o {
                        CommandOutcome::Ran { stdout, .. } => if all_ascii_ws(stdout@) {
                            EntryStatus::Absent
                        } else {
                            EntryStatus::Present
                        },
                        CommandOutcome::NotFound => EntryStatus::Unavailable,
                        CommandOutcome::Failed => EntryStatus::Failed,
                    },
                    match o {
                        CommandOutcome::Ran { .. } => "value never displayed"@,
                        CommandOutcome::NotFound => "launchctl is unavailable on this machine"@,
                        CommandOutcome::Failed => "launchctl could not be queried"@,
                    },
                ),
                Platform::Windows => (
                    "windows-user-env:"@ + key,
                    match o {
                        CommandOutcome::Ran { success, .. } => if success {
                            EntryStatus::Present
                        } else {
                            EntryStatus::Absent
                        },
                        CommandOutcome::NotFound => EntryStatus::Unavailable,
                        CommandOutcome::Failed => EntryStatus::Failed,
                    },
                    match o {
                        CommandOutcome::Ran { success, .. } => if success {
                            "value never displayed"@
                        } else {
                            "user environment value absent"@
                        },
                        CommandOutcome::NotFound => "reg.exe is unavailable on this machine"@,
                        CommandOutcome::Failed => "user environment could not be queried"@,
                    },
                ),
                Platform::Other => (
                    "persistent-env:"@ + key,
                    EntryStatus::Unavailable,
                    "persistent environment storage is shell-specific on this platform"@,
                ),
            }
            &&& es[base + 1] == (
                "current-process-env:"@ + key,
                if f.process_env@[kk] {
                    EntryStatus::Present
                } else {
                    EntryStatus::Absent
                },
                "parent shell requires a restart; value never displayed"@,
            )
            &&& (w == Platform::MacOs && f.cmux_wrapper_present) ==> es.last() == (
                "/Applications/cmux.app/Contents/Resources/bin/grok"@,
                EntryStatus::PreservedByDesign,
                "signed cmux wrapper is preserved; shell reachability is guarded"@,
            )
        }),
{
    reveal_strlit("GROK_API_KEY");
    reveal_strlit("XAI_API_KEY");
    assert(GROK_API_KEY@ == "GROK_API_KEY"@);
    assert(XAI_API_KEY@ == "XAI_API_KEY"@);
    lemma_artifact_entries_len(w, f.artifacts@);
    if f.shell_configs.len() > 0 {
        lemma_config_entries_at(f.shell_configs@, 0);
    } else {
        assert(config_entries(f.shell_configs@) == Seq::<EntryView>::empty());
    }
    reveal_strlit("/Applications/cmux.app/Contents/Resources/bin");
    reveal_strlit("/Applications/cmux.app/Contents/Resources/bin/grok");
    reveal_strlit("grok");
    assert(crate::guard::CMUX_BUNDLED_BIN@ == "/Applications/cmux.app/Contents/Resources/bin"@);
    let b = "/Applications/cmux.app/Contents/Resources/bin"@;
    assert(b.last() == 'n');
    assert(crate::audit::cmux_wrapper_path() =~= "/Applications/cmux.app/Contents/Resources/bin/grok"@);
}

/// The commands that query and clear a key in the persistent store:
/// `launchctl getenv KEY` and `launchctl unsetenv KEY` on macOS,
/// `reg query HKCU\\Environment /v KEY` and
/// `reg delete HKCU\\Environment /v KEY /f` on Windows, and none elsewhere.
pub proof fn law_environment_commands(w: Platform, key: Seq<char>)
    ensures
        crate::audit::env_query_argv(w, key) == match w {
            Platform::MacOs => Some(seq!["launchctl"@, "getenv"@, key]),
            Platform::Windows => Some(seq!["reg"@, "query"@, "HKCU\\Environment"@, "/v"@, key]),
            Platform::Other => None::<Seq<Seq<char>>>,
        },
        crate::audit::env_clear_argv(w, key) == match w {
            Platform::MacOs => Some(seq!["launchctl"@, "unsetenv"@, key]),
            Platform::Windows => Some(
                seq!["reg"@, "delete"@, "HKCU\\Environment"@, "/v"@, key, "/f"@],
            ),
            Platform::Other => None::<Seq<Seq<char>>>,
        },
{
}

} // verus!
