//! What every removal run keeps: the report's last entry asks for a shell
//! restart exactly when an earlier step removed or configured something.
use vstd::prelude::*;
use crate::audit::{env_clear_entry, CommandOutcome};
use crate::removal::{
    enter_artifact, enter_config, enter_env, env_key, finish, next_state, session_entry,
    state_wf, with_entries, ArtifactStage, Phase, RemovalEvent, RunContext, RunState,
};
use crate::report::{EntryStatus, EntryView};

verus! {

/// An entry that reports a change on the machine.
pub open spec fn is_change(e: EntryView) -> bool {
    e.1 == EntryStatus::Removed || e.1 == EntryStatus::Configured
}

/// How many entries come before the ones of the environment store and the
/// session.
pub open spec fn work_len(s: RunState) -> int {
    match s.phase {
        Phase::Environment => s.entries.len() - s.index,
        Phase::Finished => s.entries.len() - 3,
        _ => s.entries.len() as int,
    }
}

pub open spec fn some_change(entries: Seq<EntryView>, n: int) -> bool {
    exists|j: int| 0 <= j < n && is_change(#[trigger] entries[j])
}

/// The run's `changed` flag is whether a work entry reports a change, and a
/// finished run ends with the session entry for that flag.
pub open spec fn run_inv(s: RunState) -> bool {
    &&& 0 <= work_len(s) <= s.entries.len()
    &&& s.changed == some_change(s.entries, work_len(s))
    &&& s.phase == Phase::Finished ==> s.entries.last() == session_entry(s.changed)
}

/// The flag over all entries so far, before the environment step.
spec fn tracks(s: RunState) -> bool {
    s.changed == some_change(s.entries, s.entries.len() as int)
}

proof fn lemma_some_change_prefix(a: Seq<EntryView>, b: Seq<EntryView>, n: int)
    requires
        0 <= n <= a.len(),
        n <= b.len(),
        a.take(n) == b.take(n),
    ensures
        some_change(a, n) == some_change(b, n),
{
    if some_change(a, n) {
        let j = choose|j: int| 0 <= j < n && is_change(#[trigger] a[j]);
        assert(a.take(n)[j] == b.take(n)[j]);
    }
    if some_change(b, n) {
        let j = choose|j: int| 0 <= j < n && is_change(#[trigger] b[j]);
        assert(a.take(n)[j] == b.take(n)[j]);
    }
}

proof fn lemma_with_entries_tracks(s: RunState, added: Seq<EntryView>, changed: bool)
    requires
        tracks(s),
        changed == some_change(added, added.len() as int),
    ensures
        tracks(with_entries(s, added, changed)),
{
    let t = with_entries(s, added, changed);
    let n = s.entries.len() as int;
    if some_change(t.entries, t.entries.len() as int) {
        let j = choose|j: int| 0 <= j < t.entries.len() && is_change(#[trigger] t.entries[j]);
        if j < n {
            assert(t.entries[j] == s.entries[j]);
        } else {
            assert(t.entries[j] == added[j - n]);
        }
    }
    if s.changed {
        let j = choose|j: int| 0 <= j < n && is_change(#[trigger] s.entries[j]);
        assert(t.entries[j] == s.entries[j]);
    }
    if changed {
        let j = choose|j: int| 0 <= j < added.len() && is_change(#[trigger] added[j]);
        assert(t.entries[n + j] == added[j]);
    }
}

proof fn lemma_finish_inv(s: RunState, n: int)
    requires
        0 <= n <= s.entries.len(),
        n == s.entries.len() - 2,
        s.changed == some_change(s.entries, n),
    ensures
        run_inv(finish(s)),
{
    let f = finish(s);
    assert(f.entries.take(n) =~= s.entries.take(n));
    lemma_some_change_prefix(f.entries, s.entries, n);
}

proof fn lemma_enter_env_inv(c: RunContext, s: RunState, k: int)
    requires
        0 <= k <= 2,
        k <= s.entries.len(),
        s.changed == some_change(s.entries, s.entries.len() - k),
        c.platform == crate::paths::Platform::Other ==> k == 0,
    ensures
        run_inv(enter_env(c, s, k)),
{
    if c.platform == crate::paths::Platform::Other {
        let n = s.entries.len() as int;
        let t = RunState {
            phase: s.phase,
            index: s.index,
            stage: s.stage,
            changed: s.changed,
            entries: s.entries.push(
                env_clear_entry(crate::paths::Platform::Other, env_key(0), CommandOutcome::Failed),
            ).push(env_clear_entry(crate::paths::Platform::Other, env_key(1), CommandOutcome::Failed)),
        };
        assert(t.entries.take(n) =~= s.entries.take(n));
        lemma_some_change_prefix(t.entries, s.entries, n);
        lemma_finish_inv(t, n);
    } else if k < 2 {
    } else {
        lemma_finish_inv(s, s.entries.len() - 2);
    }
}

proof fn lemma_enter_config_inv(c: RunContext, s: RunState, i: int)
    requires
        tracks(s),
    ensures
        run_inv(enter_config(c, s, i)),
{
    if !(i < c.configs.len()) && !(c.platform == crate::paths::Platform::MacOs && c.cmux) {
        lemma_enter_env_inv(c, s, 0);
    }
}

proof fn lemma_enter_artifact_inv(c: RunContext, s: RunState, i: int)
    requires
        tracks(s),
    ensures
        run_inv(enter_artifact(c, s, i)),
{
    if !(0 <= i < c.artifacts.len()) {
        lemma_enter_config_inv(c, s, 0);
    }
}

proof fn lemma_one_change(x: EntryView)
    ensures
        some_change(seq![x], 1) == is_change(x),
{
    if is_change(x) {
        assert(seq![x][0] == x);
    }
}

/// A run starts with no change recorded.
pub proof fn law_run_starts_clean(c: RunContext, s: RunState)
    requires
        s.entries.len() == 0,
        !s.changed,
    ensures
        run_inv(enter_artifact(c, s, 0)),
{
    lemma_enter_artifact_inv(c, s, 0);
}

/// Every step keeps the run's record of changes: `changed` is set exactly
/// when a removal, a sanitized profile, the mirror or the guard reported a
/// change, and the environment step does not count.
pub proof fn law_step_keeps_change_record(c: RunContext, s: RunState, e: RemovalEvent)
    requires
        state_wf(c, s),
        run_inv(s),
    ensures
        run_inv(next_state(c, s, e)),
{
    match s.phase {
        Phase::Artifacts => {
            let p = c.artifacts[s.index];
            match (s.stage, e) {
                (ArtifactStage::Package, RemovalEvent::PackageChecked(b)) => {
                    if !b {
                        lemma_enter_artifact_inv(c, s, s.index + 1);
                    }
                },
                (ArtifactStage::Uninstall, RemovalEvent::Uninstalled(o)) => {
                    if let crate::audit::CommandOutcome::Ran { success, .. } = o {
                        if !success {
                            let x0 = crate::removal::npm_entry(p, false);
                            lemma_one_change(x0);
                            lemma_with_entries_tracks(s, seq![x0], false);
                            lemma_enter_artifact_inv(c, with_entries(s, seq![x0], false), s.index + 1);
                        }
                    }
                },
                (ArtifactStage::Exists, RemovalEvent::StillExists(x)) => {
                    let ok = !x;
                    let x0 = crate::removal::npm_entry(p, ok);
                    lemma_one_change(x0);
                    lemma_with_entries_tracks(s, seq![x0], ok);
                    lemma_enter_artifact_inv(c, with_entries(s, seq![x0], ok), s.index + 1);
                },
                (ArtifactStage::Removal, RemovalEvent::PathRemoved(r)) => {
                    let x0 = crate::removal::removal_entry(p, r);
                    let ch = r == Ok::<bool, String>(true);
                    lemma_one_change(x0);
                    lemma_with_entries_tracks(s, seq![x0], ch);
                    lemma_enter_artifact_inv(c, with_entries(s, seq![x0], ch), s.index + 1);
                },
                _ => {},
            }
        },
        Phase::Configs => {
            match e {
                RemovalEvent::Edited(r) => {
                    let added = crate::removal::config_edit_entries(c.configs[s.index], r);
                    let ch = crate::removal::edit_changed(r);
                    match r {
                        Ok(true) => {
                            lemma_one_change(added[0]);
                            assert(added =~= seq![added[0]]);
                        },
                        Ok(false) => {},
                        Err(_) => {
                            lemma_one_change(added[0]);
                            assert(added =~= seq![added[0]]);
                        },
                    }
                    lemma_with_entries_tracks(s, added, ch);
                    lemma_enter_config_inv(c, with_entries(s, added, ch), s.index + 1);
                },
                _ => {},
            }
        },
        Phase::Mirror => {
            match e {
                RemovalEvent::Edited(r) => {
                    let added = crate::removal::mirror_entries(c, r);
                    let ch = crate::removal::edit_changed(r);
                    match r {
                        Ok(false) => {},
                        _ => {
                            lemma_one_change(added[0]);
                            assert(added =~= seq![added[0]]);
                        },
                    }
                    lemma_with_entries_tracks(s, added, ch);
                },
                _ => {},
            }
        },
        Phase::Guard => {
            match e {
                RemovalEvent::Edited(r) => {
                    let x0 = crate::removal::guard_entry(c, r);
                    let ch = crate::removal::edit_changed(r);
                    lemma_one_change(x0);
                    lemma_with_entries_tracks(s, seq![x0], ch);
                    lemma_enter_env_inv(c, with_entries(s, seq![x0], ch), 0);
                },
                _ => {},
            }
        },
        Phase::Environment => {
            match e {
                RemovalEvent::EnvCleared(o) => {
                    let x0 = env_clear_entry(c.platform, env_key(s.index), o);
                    let t = with_entries(s, seq![x0], false);
                    let n = work_len(s);
                    assert(t.entries.take(n) =~= s.entries.take(n));
                    lemma_some_change_prefix(t.entries, s.entries, n);
                    lemma_enter_env_inv(c, t, s.index + 1);
                },
                _ => {},
            }
        },
        Phase::Finished => {},
    }
}

/// When the run is over, its last entry says that shells must be restarted
/// (`present`) exactly when an entry before the environment entries reports
/// a removal or a configuration.
pub proof fn law_session_entry_reports_changes(s: RunState)
    requires
        run_inv(s),
        s.phase == Phase::Finished,
    ensures
        s.entries.len() >= 3,
        (s.entries.last().1 == EntryStatus::Present) == some_change(s.entries, s.entries.len() - 3),
{
}

} // verus!
