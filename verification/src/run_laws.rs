//! What a whole removal run reports, whatever the outside actions answer:
//! every artifact that is not an npm package gets exactly its entry, in the
//! order of the artifact list, and no failure stops the later targets; each
//! profile is reported as its edit went; and the report never depends on a
//! credential's value.
use vstd::prelude::*;
use crate::audit::CommandOutcome;
use crate::credentials::{stripped, strip_removes};
use crate::edits::{edit_outcome, edit_view, sanitize_edit, ProfileEdit, ReadOutcome};
use crate::error::{error_message, error_view, CleanupError, ErrorView};
use crate::guard::{guard_present, with_guard};
use crate::paths::{ends_with_name, Platform};
use crate::removal::{
    enter_artifact, enter_config, enter_env, next_state, removal_entry,
    state_wf, with_entries, ArtifactStage, Phase, RemovalEvent, RunContext, RunState,
};
use crate::removal_laws::{
    law_run_starts_clean, law_session_entry_reports_changes, law_step_keeps_change_record,
    run_inv, some_change,
};
use crate::report::{EntryStatus, EntryView};

verus! {

/// The state after answering `es`, one event after the other, from `s`.
pub open spec fn run_after(c: RunContext, s: RunState, es: Seq<RemovalEvent>) -> RunState
    decreases es.len(),
{
    if es.len() == 0 {
        s
    } else {
        next_state(c, run_after(c, s, es.drop_last()), es.last())
    }
}

/// The state in which `apply_removal` starts a run.
pub open spec fn start_state(c: RunContext) -> RunState {
    enter_artifact(
        c,
        RunState {
            phase: Phase::Artifacts,
            index: 0,
            stage: ArtifactStage::Removal,
            changed: false,
            entries: seq![],
        },
        0,
    )
}

/// How many artifacts the run has finished with.
pub open spec fn processed(c: RunContext, s: RunState) -> int {
    if s.phase == Phase::Artifacts {
        s.index
    } else {
        c.artifacts.len() as int
    }
}

/// The first `m` entries are the artifacts' entries: entry `k` is that of
/// artifact `idx[k]`, in increasing order, and every artifact that is not an
/// npm package directory and that the run has finished with has one.
pub open spec fn artifact_record(c: RunContext, s: RunState, m: int, idx: Seq<int>) -> bool {
    &&& 0 <= m <= s.entries.len()
    &&& idx.len() == m
    &&& (s.phase == Phase::Artifacts ==> m == s.entries.len())
    &&& forall|k: int|
        0 <= k < m ==> 0 <= #[trigger] idx[k] < processed(c, s) && s.entries[k].0
            == c.artifacts[idx[k]]
    &&& forall|k1: int, k2: int| 0 <= k1 < k2 < m ==> #[trigger] idx[k1] < #[trigger] idx[k2]
    &&& forall|j: int|
        0 <= j < processed(c, s) && !ends_with_name(
            c.platform,
            #[trigger] c.artifacts[j],
            "grok-cli"@,
        ) ==> exists|k: int| 0 <= k < m && idx[k] == j
}

proof fn lemma_enter_env_shape(c: RunContext, s: RunState, k: int)
    requires
        0 <= k,
    ensures
        enter_env(c, s, k).phase != Phase::Artifacts,
        enter_env(c, s, k).entries.take(s.entries.len() as int) == s.entries,
        enter_env(c, s, k).entries.len() >= s.entries.len(),
        state_wf(c, enter_env(c, s, k)),
{
    let t = enter_env(c, s, k);
    assert(t.entries.take(s.entries.len() as int) =~= s.entries);
}

proof fn lemma_enter_config_shape(c: RunContext, s: RunState, i: int)
    requires
        0 <= i,
    ensures
        enter_config(c, s, i).phase != Phase::Artifacts,
        enter_config(c, s, i).entries.take(s.entries.len() as int) == s.entries,
        enter_config(c, s, i).entries.len() >= s.entries.len(),
        state_wf(c, enter_config(c, s, i)),
        i < c.configs.len() ==> enter_config(c, s, i).entries == s.entries,
{
    lemma_enter_env_shape(c, s, 0);
    assert(s.entries.take(s.entries.len() as int) =~= s.entries);
}

proof fn lemma_enter_artifact_shape(c: RunContext, s: RunState, i: int)
    requires
        0 <= i,
    ensures
        state_wf(c, enter_artifact(c, s, i)),
        enter_artifact(c, s, i).entries.take(s.entries.len() as int) == s.entries,
        enter_artifact(c, s, i).entries.len() >= s.entries.len(),
        i < c.artifacts.len() ==> enter_artifact(c, s, i).phase == Phase::Artifacts
            && enter_artifact(c, s, i).index == i && enter_artifact(c, s, i).entries
            == s.entries,
        i >= c.artifacts.len() ==> enter_artifact(c, s, i).phase != Phase::Artifacts,
        i >= c.artifacts.len() && c.configs.len() > 0 ==> enter_artifact(c, s, i).entries
            == s.entries,
{
    lemma_enter_config_shape(c, s, 0);
    assert(s.entries.take(s.entries.len() as int) =~= s.entries);
}

/// Every step keeps the run in a state it can be in; after the artifacts,
/// the run never returns to them and only appends entries.
pub proof fn lemma_step_shape(c: RunContext, s: RunState, e: RemovalEvent)
    requires
        state_wf(c, s),
    ensures
        state_wf(c, next_state(c, s, e)),
        next_state(c, s, e).entries.take(s.entries.len() as int) == s.entries,
        next_state(c, s, e).entries.len() >= s.entries.len(),
        s.phase != Phase::Artifacts ==> next_state(c, s, e).phase != Phase::Artifacts,
{
    let t = next_state(c, s, e);
    assert(s.entries.take(s.entries.len() as int) =~= s.entries);
    match s.phase {
        Phase::Artifacts => {
            let p = c.artifacts[s.index];
            match (s.stage, e) {
                (ArtifactStage::Package, RemovalEvent::PackageChecked(b)) => {
                    lemma_enter_artifact_shape(c, s, s.index + 1);
                },
                (ArtifactStage::Uninstall, RemovalEvent::Uninstalled(o)) => {
                    if let CommandOutcome::Ran { success, .. } = o {
                        if !success {
                            let x = with_entries(s, seq![crate::removal::npm_entry(p, false)], false);
                            lemma_enter_artifact_shape(c, x, s.index + 1);
                            assert(x.entries.take(s.entries.len() as int) =~= s.entries);
                            assert(t.entries.take(x.entries.len() as int).take(
                                s.entries.len() as int,
                            ) =~= t.entries.take(s.entries.len() as int));
                        }
                    }
                },
                (ArtifactStage::Exists, RemovalEvent::StillExists(v)) => {
                    let x = with_entries(s, seq![crate::removal::npm_entry(p, !v)], !v);
                    lemma_enter_artifact_shape(c, x, s.index + 1);
                    assert(x.entries.take(s.entries.len() as int) =~= s.entries);
                    assert(t.entries.take(x.entries.len() as int).take(s.entries.len() as int)
                        =~= t.entries.take(s.entries.len() as int));
                },
                (ArtifactStage::Removal, RemovalEvent::PathRemoved(r)) => {
                    let x = with_entries(
                        s,
                        seq![removal_entry(p, r)],
                        r == Ok::<bool, String>(true),
                    );
                    lemma_enter_artifact_shape(c, x, s.index + 1);
                    assert(x.entries.take(s.entries.len() as int) =~= s.entries);
                    assert(t.entries.take(x.entries.len() as int).take(s.entries.len() as int)
                        =~= t.entries.take(s.entries.len() as int));
                },
                _ => {},
            }
        },
        Phase::Configs => {
            if let RemovalEvent::Edited(r) = e {
                let x = with_entries(
                    s,
                    crate::removal::config_edit_entries(c.configs[s.index], r),
                    crate::removal::edit_changed(r),
                );
                lemma_enter_config_shape(c, x, s.index + 1);
                assert(x.entries.take(s.entries.len() as int) =~= s.entries);
                assert(t.entries.take(x.entries.len() as int).take(s.entries.len() as int)
                    =~= t.entries.take(s.entries.len() as int));
            }
        },
        Phase::Mirror => {
            if let RemovalEvent::Edited(r) = e {
                assert(t.entries.take(s.entries.len() as int) =~= s.entries);
            }
        },
        Phase::Guard => {
            if let RemovalEvent::Edited(r) = e {
                let x = with_entries(s, seq![crate::removal::guard_entry(c, r)], crate::removal::edit_changed(r));
                lemma_enter_env_shape(c, x, 0);
                assert(x.entries.take(s.entries.len() as int) =~= s.entries);
                assert(t.entries.take(x.entries.len() as int).take(s.entries.len() as int)
                    =~= t.entries.take(s.entries.len() as int));
            }
        },
        Phase::Environment => {
            if let RemovalEvent::EnvCleared(o) = e {
                let x = with_entries(
                    s,
                    seq![crate::audit::env_clear_entry(c.platform, crate::removal::env_key(s.index), o)],
                    false,
                );
                lemma_enter_env_shape(c, x, s.index + 1);
                assert(x.entries.take(s.entries.len() as int) =~= s.entries);
                assert(t.entries.take(x.entries.len() as int).take(s.entries.len() as int)
                    =~= t.entries.take(s.entries.len() as int));
            }
        },
        Phase::Finished => {},
    }
}

proof fn lemma_record_advance(
    c: RunContext,
    s: RunState,
    m: int,
    idx: Seq<int>,
    added: Seq<EntryView>,
    ch: bool,
) -> (r: (int, Seq<int>))
    requires
        state_wf(c, s),
        s.phase == Phase::Artifacts,
        c.configs.len() > 0,
        artifact_record(c, s, m, idx),
        added.len() <= 1,
        added.len() == 1 ==> added[0].0 == c.artifacts[s.index],
        added.len() == 0 ==> ends_with_name(c.platform, c.artifacts[s.index], "grok-cli"@),
    ensures
        artifact_record(c, enter_artifact(c, with_entries(s, added, ch), s.index + 1), r.0, r.1),
        r.0 == s.entries.len() + added.len(),
        r.1 == (if added.len() == 1 {
            idx.push(s.index)
        } else {
            idx
        }),
        processed(c, enter_artifact(c, with_entries(s, added, ch), s.index + 1)) == s.index + 1,
{
    let i = s.index;
    let x = with_entries(s, added, ch);
    let t = enter_artifact(c, x, i + 1);
    lemma_enter_artifact_shape(c, x, i + 1);
    assert(processed(c, t) == i + 1);
    let m2 = m + added.len();
    let idx2 = if added.len() == 1 {
        idx.push(i)
    } else {
        idx
    };
    assert(t.entries == s.entries + added);
    assert forall|k: int| 0 <= k < m2 implies 0 <= #[trigger] idx2[k] < processed(c, t)
        && t.entries[k].0 == c.artifacts[idx2[k]] by {
        if k < m {
            assert(idx2[k] == idx[k]);
            assert(t.entries[k] == s.entries[k]);
        } else {
            assert(idx2[k] == i);
            assert(t.entries[k] == added[0]);
        }
    }
    assert forall|k1: int, k2: int| 0 <= k1 < k2 < m2 implies #[trigger] idx2[k1] < #[trigger] idx2[k2] by {
        assert(idx2[k1] == idx[k1]);
        if k2 < m {
            assert(idx2[k2] == idx[k2]);
        } else {
            assert(idx[k1] < processed(c, s));
        }
    }
    assert forall|j: int|
        0 <= j < processed(c, t) && !ends_with_name(
            c.platform,
            #[trigger] c.artifacts[j],
            "grok-cli"@,
        ) implies exists|k: int| 0 <= k < m2 && idx2[k] == j by {
        if j < i {
            let k = choose|k: int| 0 <= k < m && idx[k] == j;
            assert(idx2[k] == idx[k]);
        } else {
            assert(j == i);
            assert(added.len() == 1);
            assert(idx2[m] == i);
        }
    }
    (m2, idx2)
}

/// One step keeps the artifacts' record.
proof fn lemma_record_step(c: RunContext, s: RunState, e: RemovalEvent, m: int, idx: Seq<int>) -> (r: (
    int,
    Seq<int>,
))
    requires
        state_wf(c, s),
        c.configs.len() > 0,
        artifact_record(c, s, m, idx),
    ensures
        artifact_record(c, next_state(c, s, e), r.0, r.1),
        s.phase == Phase::Artifacts ==> r.0 == next_state(c, s, e).entries.len(),
        s.phase != Phase::Artifacts ==> r.0 == m,
        r.1 == (if s.phase == Phase::Artifacts && processed(c, next_state(c, s, e)) == s.index + 1
            && s.stage != ArtifactStage::Package {
            idx.push(s.index)
        } else {
            idx
        }),
{
    let t = next_state(c, s, e);
    lemma_step_shape(c, s, e);
    if s.phase != Phase::Artifacts {
        assert forall|k: int| 0 <= k < m implies 0 <= #[trigger] idx[k] < processed(c, t)
            && t.entries[k].0 == c.artifacts[idx[k]] by {
            assert(t.entries.take(s.entries.len() as int)[k] == t.entries[k]);
        }
        return (m, idx);
    }
    let i = s.index;
    let p = c.artifacts[i];
    match (s.stage, e) {
        (ArtifactStage::Package, RemovalEvent::PackageChecked(b)) => {
            if b {
                (m, idx)
            } else {
                assert(with_entries(s, seq![], false) =~= s);
                lemma_record_advance(c, s, m, idx, seq![], false)
            }
        },
        (ArtifactStage::Uninstall, RemovalEvent::Uninstalled(o)) => {
            if let CommandOutcome::Ran { success, .. } = o {
                if !success {
                    return lemma_record_advance(
                        c,
                        s,
                        m,
                        idx,
                        seq![crate::removal::npm_entry(p, false)],
                        false,
                    );
                }
            }
            (m, idx)
        },
        (ArtifactStage::Exists, RemovalEvent::StillExists(v)) => {
            lemma_record_advance(c, s, m, idx, seq![crate::removal::npm_entry(p, !v)], !v)
        },
        (ArtifactStage::Removal, RemovalEvent::PathRemoved(res)) => {
            lemma_record_advance(
                c,
                s,
                m,
                idx,
                seq![removal_entry(p, res)],
                res == Ok::<bool, String>(true),
            )
        },
        _ => (m, idx),
    }
}

/// Whatever the outside actions answer, and for as long as the run goes: the
/// report starts with the artifacts' entries, each naming its artifact, in
/// the order of the artifact list, and every artifact that is not an npm
/// package directory and that the run has moved past has its entry. Once
/// the run is past the artifacts, every such artifact has been reported; a
/// failure on one never keeps the run from the later ones.
pub proof fn law_artifacts_each_reported(c: RunContext, es: Seq<RemovalEvent>)
    requires
        c.configs.len() > 0,
    ensures
        exists|m: int, idx: Seq<int>| artifact_record(c, run_after(c, start_state(c), es), m, idx),
        run_after(c, start_state(c), es).phase != Phase::Artifacts ==> processed(
            c,
            run_after(c, start_state(c), es),
        ) == c.artifacts.len(),
{
    let r = lemma_records_run(c, es);
    assert(artifact_record(c, run_after(c, start_state(c), es), r.0, r.1));
}

/// Removing an artifact adds exactly its entry (removed, already absent, or
/// failed with the error), and the run moves on to the next artifact
/// whatever the outcome.
pub proof fn law_removal_step_moves_on(c: RunContext, s: RunState, r: Result<bool, String>)
    requires
        state_wf(c, s),
        c.configs.len() > 0,
        s.phase == Phase::Artifacts,
        s.stage == ArtifactStage::Removal,
    ensures
        next_state(c, s, RemovalEvent::PathRemoved(r)).entries == s.entries.push(
            removal_entry(c.artifacts[s.index], r),
        ),
        processed(c, next_state(c, s, RemovalEvent::PathRemoved(r))) == s.index + 1,
        removal_entry(c.artifacts[s.index], r) == match r {
            Ok(true) => (c.artifacts[s.index], EntryStatus::Removed, "removed local Grok artifact"@),
            Ok(false) => (c.artifacts[s.index], EntryStatus::Absent, "already absent"@),
            Err(m) => (c.artifacts[s.index], EntryStatus::Failed, m@),
        },
        next_state(c, s, RemovalEvent::PathRemoved(r)).changed == (s.changed || r == Ok::<
            bool,
            String,
        >(true)),
{
    let x = with_entries(
        s,
        seq![removal_entry(c.artifacts[s.index], r)],
        r == Ok::<bool, String>(true),
    );
    lemma_enter_artifact_shape(c, x, s.index + 1);
    assert(x.entries =~= s.entries.push(removal_entry(c.artifacts[s.index], r)));
}

/// Whether sanitizing needs to install the cmux guard in the profile at `p`.
pub open spec fn guard_wanted(c: RunContext, p: Seq<char>, x: Seq<char>) -> bool {
    c.platform == Platform::MacOs && ends_with_name(c.platform, p, ".zshrc"@) && c.cmux
        && !guard_present(stripped(x))
}

/// The entries that the profile `p`, read as `read`, gets once its edit is
/// carried out with `written` as the outcome of writing.
pub open spec fn profile_entries(
    c: RunContext,
    p: Seq<char>,
    read: ReadOutcome,
    written: Result<(), CleanupError>,
) -> Seq<EntryView> {
    match read {
        ReadOutcome::NotFound => seq![],
        ReadOutcome::Failed(m) => seq![(p, EntryStatus::Failed, "failed to read "@ + p + ": "@ + m@)],
        ReadOutcome::Text(x) => if !strip_removes(x@) && !guard_wanted(c, p, x@) {
            seq![]
        } else {
            match written {
                Ok(_) => seq![(p, EntryStatus::Removed, "removed Grok credential exports"@)],
                Err(e) => seq![(p, EntryStatus::Failed, error_message(e))],
            }
        },
    }
}

/// The profile step of a run: the profile at hand is read as `read`, and the
/// edit that `sanitize_shell_config` decides is carried out (`written` being
/// how writing went). A missing profile, and one that needs no change, get
/// no entry and are not written; a profile with credential exports (or that
/// gets the guard) is written with the stripped text (and the guard) and is
/// reported removed, or reported failed with the write error; a read error
/// is reported failed. Then the run moves on to the next profile (or to what
/// follows the profiles), whatever happened.
pub proof fn law_profile_step(
    c: RunContext,
    s: RunState,
    pe: ProfileEdit,
    read: ReadOutcome,
    written: Result<(), CleanupError>,
)
    requires
        state_wf(c, s),
        s.phase == Phase::Configs,
        edit_view(pe) == sanitize_edit(c.platform, c.configs[s.index], read, c.cmux),
    ensures
        ({
            let p = c.configs[s.index];
            let r = edit_outcome(pe, written);
            &&& next_state(c, s, RemovalEvent::Edited(r)) == enter_config(
                c,
                with_entries(s, profile_entries(c, p, read, written), r == Ok::<bool, CleanupError>(true)),
                s.index + 1,
            )
            &&& match read {
                ReadOutcome::Text(x) => if !strip_removes(x@) && !guard_wanted(c, p, x@) {
                    pe is Unchanged
                } else {
                    pe matches ProfileEdit::Write(y) && y@ == (if guard_wanted(c, p, x@) {
                        with_guard(stripped(x@))
                    } else {
                        stripped(x@)
                    })
                },
                ReadOutcome::NotFound => pe is Unchanged,
                ReadOutcome::Failed(_) => pe is Fail,
            }
        }),
{
    let p = c.configs[s.index];
    let r = edit_outcome(pe, written);
    assert(crate::removal::config_edit_entries(p, r) =~= profile_entries(c, p, read, written)) by {
        if let ReadOutcome::Failed(m) = read {
            let e = pe->Fail_0;
            assert(error_view(e) == ErrorView::Read { path: p, source: m@ });
            assert(e is Read);
        }
    }
}

/// Two answers that agree but for what the environment command printed.
pub open spec fn same_answer(a: RemovalEvent, b: RemovalEvent) -> bool {
    ||| a == b
    ||| (a matches RemovalEvent::EnvCleared(CommandOutcome::Ran { success: x, .. })
        && b matches RemovalEvent::EnvCleared(CommandOutcome::Ran { success: y, .. }) && x == y)
}

proof fn lemma_same_answer_step(c: RunContext, s: RunState, a: RemovalEvent, b: RemovalEvent)
    requires
        same_answer(a, b),
    ensures
        next_state(c, s, a) == next_state(c, s, b),
{
}

/// The removal never depends on a credential's value. A profile's edit
/// depends only on the profile's text outside its credential lines and on
/// whether it has any; clearing a key from the environment store is judged
/// by whether the command succeeded, never by what it printed; and the run
/// is a function of these answers. So machines that differ only in the
/// values of their credentials get the same edits and the same report.
pub proof fn law_removal_sees_no_values(
    c: RunContext,
    s: RunState,
    p: Seq<char>,
    x: String,
    y: String,
    es1: Seq<RemovalEvent>,
    es2: Seq<RemovalEvent>,
)
    requires
        stripped(x@) == stripped(y@),
        strip_removes(x@) == strip_removes(y@),
        es1.len() == es2.len(),
        forall|i: int| 0 <= i < es1.len() ==> same_answer(#[trigger] es1[i], es2[i]),
    ensures
        sanitize_edit(c.platform, p, ReadOutcome::Text(x), c.cmux) == sanitize_edit(
            c.platform,
            p,
            ReadOutcome::Text(y),
            c.cmux,
        ),
        run_after(c, s, es1) == run_after(c, s, es2),
    decreases es1.len(),
{
    if es1.len() > 0 {
        let a1 = es1.drop_last();
        let a2 = es2.drop_last();
        assert forall|i: int| 0 <= i < a1.len() implies same_answer(#[trigger] a1[i], a2[i]) by {
            assert(a1[i] == es1[i] && a2[i] == es2[i]);
        }
        law_removal_sees_no_values(c, s, p, x, y, a1, a2);
        assert(same_answer(es1[es1.len() - 1], es2[es2.len() - 1]));
        lemma_same_answer_step(c, run_after(c, s, a1), es1.last(), es2.last());
    }
}

proof fn lemma_run_keeps_change_record(c: RunContext, es: Seq<RemovalEvent>)
    ensures
        state_wf(c, run_after(c, start_state(c), es)),
        run_inv(run_after(c, start_state(c), es)),
    decreases es.len(),
{
    if es.len() == 0 {
        let s0 = RunState {
            phase: Phase::Artifacts,
            index: 0,
            stage: ArtifactStage::Removal,
            changed: false,
            entries: seq![],
        };
        lemma_enter_artifact_shape(c, s0, 0);
        law_run_starts_clean(c, s0);
    } else {
        lemma_run_keeps_change_record(c, es.drop_last());
        let s = run_after(c, start_state(c), es.drop_last());
        lemma_step_shape(c, s, es.last());
        law_step_keeps_change_record(c, s, es.last());
    }
}

/// Whatever the outside actions answer, a finished run ends with the entry
/// for the current shell sessions, and it asks for a restart (`present`)
/// exactly when an entry before those of the environment store reports a
/// removal or a configuration.
pub proof fn law_every_run_reports_restart(c: RunContext, es: Seq<RemovalEvent>)
    requires
        run_after(c, start_state(c), es).phase == Phase::Finished,
    ensures
        ({
            let s = run_after(c, start_state(c), es);
            &&& s.entries.len() >= 3
            &&& s.entries.last().0 == "current shell sessions"@
            &&& (s.entries.last().1 == EntryStatus::Present) == some_change(
                s.entries,
                s.entries.len() - 3,
            )
        }),
{
    lemma_run_keeps_change_record(c, es);
    law_session_entry_reports_changes(run_after(c, start_state(c), es));
}

/// How many profiles the run has finished with.
pub open spec fn profiles_done(c: RunContext, s: RunState) -> int {
    match s.phase {
        Phase::Artifacts => 0,
        Phase::Configs => s.index,
        _ => c.configs.len() as int,
    }
}

/// Entries `m0` to `m` are the profiles' entries: entry `m0 + k` is that of
/// profile `idx[k]`, at most one per profile, in the order of the profiles.
pub open spec fn profile_record(c: RunContext, s: RunState, m0: int, m: int, idx: Seq<int>) -> bool {
    &&& 0 <= m0 <= m <= s.entries.len()
    &&& idx.len() == m - m0
    &&& (s.phase == Phase::Artifacts ==> m0 == m && m == s.entries.len())
    &&& (s.phase == Phase::Configs ==> m == s.entries.len())
    &&& forall|k: int|
        0 <= k < m - m0 ==> 0 <= #[trigger] idx[k] < profiles_done(c, s) && s.entries[m0 + k].0
            == c.configs[idx[k]]
    &&& forall|k1: int, k2: int| 0 <= k1 < k2 < m - m0 ==> #[trigger] idx[k1] < #[trigger] idx[k2]
}

proof fn lemma_profile_step(
    c: RunContext,
    s: RunState,
    e: RemovalEvent,
    m0: int,
    m: int,
    idx: Seq<int>,
    m0_next: int,
) -> (r: (int, Seq<int>))
    requires
        state_wf(c, s),
        c.configs.len() > 0,
        profile_record(c, s, m0, m, idx),
        s.phase == Phase::Artifacts ==> m0_next == next_state(c, s, e).entries.len(),
        s.phase != Phase::Artifacts ==> m0_next == m0,
    ensures
        profile_record(c, next_state(c, s, e), m0_next, r.0, r.1),
{
    let t = next_state(c, s, e);
    lemma_step_shape(c, s, e);
    if s.phase == Phase::Artifacts {
        if t.phase != Phase::Artifacts {
            assert(t.phase == Phase::Configs) by {
                let i = s.index;
                let p = c.artifacts[i];
                match (s.stage, e) {
                    (ArtifactStage::Package, RemovalEvent::PackageChecked(b)) => {
                        lemma_enter_artifact_shape(c, s, i + 1);
                    },
                    (ArtifactStage::Uninstall, RemovalEvent::Uninstalled(o)) => {
                        lemma_enter_artifact_shape(
                            c,
                            with_entries(s, seq![crate::removal::npm_entry(p, false)], false),
                            i + 1,
                        );
                    },
                    (ArtifactStage::Exists, RemovalEvent::StillExists(v)) => {
                        lemma_enter_artifact_shape(
                            c,
                            with_entries(s, seq![crate::removal::npm_entry(p, !v)], !v),
                            i + 1,
                        );
                    },
                    (ArtifactStage::Removal, RemovalEvent::PathRemoved(res)) => {
                        lemma_enter_artifact_shape(
                            c,
                            with_entries(
                                s,
                                seq![removal_entry(p, res)],
                                res == Ok::<bool, String>(true),
                            ),
                            i + 1,
                        );
                    },
                    _ => {},
                }
            }
        }
        return (m0_next, seq![]);
    }
    if s.phase != Phase::Configs {
        assert forall|k: int| 0 <= k < m - m0 implies 0 <= #[trigger] idx[k] < profiles_done(c, t)
            && t.entries[m0 + k].0 == c.configs[idx[k]] by {
            assert(t.entries.take(s.entries.len() as int)[m0 + k] == t.entries[m0 + k]);
        }
        return (m, idx);
    }
    let i = s.index;
    match e {
        RemovalEvent::Edited(res) => {
            let p = c.configs[i];
            let added = crate::removal::config_edit_entries(p, res);
            let x = with_entries(s, added, crate::removal::edit_changed(res));
            lemma_enter_config_shape(c, x, i + 1);
            assert(profiles_done(c, t) == i + 1);
            let m2 = x.entries.len() as int;
            let idx2 = if added.len() == 1 {
                idx.push(i)
            } else {
                idx
            };
            assert(t.entries.take(x.entries.len() as int) == x.entries);
            assert forall|k: int| 0 <= k < m2 - m0 implies 0 <= #[trigger] idx2[k] < profiles_done(
                c,
                t,
            ) && t.entries[m0 + k].0 == c.configs[idx2[k]] by {
                assert(t.entries.take(x.entries.len() as int)[m0 + k] == t.entries[m0 + k]);
                if k < m - m0 {
                    assert(idx2[k] == idx[k]);
                    assert(x.entries[m0 + k] == s.entries[m0 + k]);
                } else {
                    assert(idx2[k] == i);
                    assert(x.entries[m0 + k] == added[0]);
                }
            }
            assert forall|k1: int, k2: int| 0 <= k1 < k2 < m2 - m0 implies #[trigger] idx2[k1]
                < #[trigger] idx2[k2] by {
                assert(idx2[k1] == idx[k1]);
                if k2 < m - m0 {
                    assert(idx2[k2] == idx[k2]);
                }
            }
            (m2, idx2)
        },
        _ => (m, idx),
    }
}

/// At step `i` of `es`, the run was at artifact `j`'s package check and was
/// told that it is not the Grok CLI.
pub open spec fn rejects(c: RunContext, es: Seq<RemovalEvent>, i: int, j: int) -> bool {
    let s = run_after(c, start_state(c), es.take(i));
    &&& s.phase == Phase::Artifacts
    &&& s.index == j
    &&& s.stage == ArtifactStage::Package
    &&& es[i] == RemovalEvent::PackageChecked(false)
}

/// Artifact `j`'s package check said, somewhere in `es`, that it is not the
/// Grok CLI.
pub open spec fn rejected_at(c: RunContext, es: Seq<RemovalEvent>, j: int) -> bool {
    exists|i: int| 0 <= i < es.len() && #[trigger] rejects(c, es, i, j)
}

/// The artifact `j` has an entry among the first `m` entries.
pub open spec fn has_artifact_entry(idx: Seq<int>, j: int) -> bool {
    exists|k: int| 0 <= k < idx.len() && idx[k] == j
}

proof fn lemma_processed_grows(c: RunContext, s: RunState, e: RemovalEvent)
    requires
        state_wf(c, s),
        c.configs.len() > 0,
    ensures
        processed(c, s) <= processed(c, next_state(c, s, e)),
{
    lemma_step_shape(c, s, e);
    if s.phase == Phase::Artifacts {
        law_artifact_leaves_with_one_entry(c, s, e);
    }
}

/// Earlier steps of a run have finished with no more artifacts than later
/// ones.
proof fn lemma_processed_monotone(c: RunContext, es: Seq<RemovalEvent>, i: int)
    requires
        c.configs.len() > 0,
        0 <= i <= es.len(),
    ensures
        processed(c, run_after(c, start_state(c), es.take(i))) <= processed(
            c,
            run_after(c, start_state(c), es),
        ),
    decreases es.len(), 1int,
{
    if i == es.len() {
        assert(es.take(i) =~= es);
    } else {
        let es0 = es.drop_last();
        assert(es.take(i) =~= es0.take(i));
        lemma_processed_monotone(c, es0, i);
        lemma_records_run(c, es0);
        lemma_processed_grows(c, run_after(c, start_state(c), es0), es.last());
    }
}

proof fn lemma_records_run(c: RunContext, es: Seq<RemovalEvent>) -> (r: (int, Seq<int>, int, Seq<int>))
    requires
        c.configs.len() > 0,
    ensures
        state_wf(c, run_after(c, start_state(c), es)),
        artifact_record(c, run_after(c, start_state(c), es), r.0, r.1),
        profile_record(c, run_after(c, start_state(c), es), r.0, r.2, r.3),
        forall|j: int|
            0 <= j < processed(c, run_after(c, start_state(c), es)) ==> (has_artifact_entry(r.1, j)
                <==> !rejected_at(c, es, j)),
    decreases es.len(), 1int,
{
    if es.len() == 0 {
        let s0 = RunState {
            phase: Phase::Artifacts,
            index: 0,
            stage: ArtifactStage::Removal,
            changed: false,
            entries: seq![],
        };
        lemma_enter_artifact_shape(c, s0, 0);
        (0, seq![], 0, seq![])
    } else {
        let (m, ia, m2, ic) = lemma_records_run(c, es.drop_last());
        let s = run_after(c, start_state(c), es.drop_last());
        lemma_step_shape(c, s, es.last());
        let (ma, ia2) = lemma_record_step(c, s, es.last(), m, ia);
        let (mc, ic2) = lemma_profile_step(c, s, es.last(), m, m2, ic, ma);
        lemma_rejections_step(c, es, ia, ia2);
        (ma, ia2, mc, ic2)
    }
}

proof fn lemma_rejections_step(c: RunContext, es: Seq<RemovalEvent>, ia: Seq<int>, ia2: Seq<int>)
    requires
        c.configs.len() > 0,
        es.len() > 0,
        state_wf(c, run_after(c, start_state(c), es.drop_last())),
        artifact_record(c, run_after(c, start_state(c), es.drop_last()), ia.len() as int, ia),
        forall|j: int|
            0 <= j < processed(c, run_after(c, start_state(c), es.drop_last())) ==> (
            has_artifact_entry(ia, j) <==> !rejected_at(c, es.drop_last(), j)),
        ({
            let s = run_after(c, start_state(c), es.drop_last());
            ia2 == (if s.phase == Phase::Artifacts && processed(c, next_state(c, s, es.last()))
                == s.index + 1 && s.stage != ArtifactStage::Package {
                ia.push(s.index)
            } else {
                ia
            })
        }),
    ensures
        forall|j: int|
            0 <= j < processed(c, run_after(c, start_state(c), es)) ==> (has_artifact_entry(ia2, j)
                <==> !rejected_at(c, es, j)),
    decreases es.len(), 0int,
{
    let es0 = es.drop_last();
    let s = run_after(c, start_state(c), es0);
    let e = es.last();
    let t = run_after(c, start_state(c), es);
    assert(t == next_state(c, s, e));
    lemma_processed_grows(c, s, e);
    lemma_step_shape(c, s, e);
    assert(es.take(es0.len() as int) =~= es0);
    assert forall|i: int, j: int| 0 <= i < es0.len() implies rejects(c, es, i, j) == rejects(
        c,
        es0,
        i,
        j,
    ) by {
        assert(es.take(i) =~= es0.take(i));
        assert(es[i] == es0[i]);
    }
    assert forall|j: int| 0 <= j < processed(c, t) implies (has_artifact_entry(ia2, j)
        <==> !rejected_at(c, es, j)) by {
        let n = es0.len() as int;
        if j < processed(c, s) {
            if has_artifact_entry(ia2, j) {
                let k = choose|k: int| 0 <= k < ia2.len() && ia2[k] == j;
                if k >= ia.len() {
                    assert(ia2[k] == s.index);
                }
                assert(ia[k] == j);
            }
            if has_artifact_entry(ia, j) {
                let k = choose|k: int| 0 <= k < ia.len() && ia[k] == j;
                assert(ia2[k] == j);
            }
            if rejected_at(c, es, j) {
                let i = choose|i: int| 0 <= i < es.len() && #[trigger] rejects(c, es, i, j);
                if i == n {
                    assert(s.index == j);
                    assert(false);
                }
                assert(rejects(c, es0, i, j));
            }
            if rejected_at(c, es0, j) {
                let i = choose|i: int| 0 <= i < es0.len() && #[trigger] rejects(c, es0, i, j);
                assert(rejects(c, es, i, j));
            }
        } else {
            assert(s.phase == Phase::Artifacts);
            assert(j == s.index);
            law_artifact_leaves_with_one_entry(c, s, e);
            assert(processed(c, t) == s.index + 1);
            // only the entry pushed now can name `j`
            if has_artifact_entry(ia2, j) {
                let k = choose|k: int| 0 <= k < ia2.len() && ia2[k] == j;
                if k < ia.len() {
                    assert(ia2[k] == ia[k]);
                    assert(ia[k] < processed(c, s));
                }
            }
            if s.stage != ArtifactStage::Package {
                assert(ia2[ia.len() as int] == j);
            }
            // a rejection now happens exactly at a package check
            if s.stage == ArtifactStage::Package {
                assert(es.take(n) =~= es0);
                assert(rejects(c, es, n, j));
            } else if rejected_at(c, es, j) {
                let i = choose|i: int| 0 <= i < es.len() && #[trigger] rejects(c, es, i, j);
                assert(i != n);
                let si = run_after(c, start_state(c), es0.take(i));
                assert(rejects(c, es0, i, j));
                assert(es0.take(i + 1).drop_last() =~= es0.take(i));
                assert(es0.take(i + 1).last() == es0[i]);
                lemma_records_run(c, es0.take(i));
                let ti = next_state(c, si, es0[i]);
                assert(run_after(c, start_state(c), es0.take(i + 1)) == ti);
                law_artifact_leaves_with_one_entry(c, si, es0[i]);
                lemma_enter_artifact_shape(c, si, j + 1);
                assert(processed(c, ti) == j + 1);
                lemma_processed_monotone(c, es0, i + 1);
                assert(false);
            }
        }
    }
}

/// Whatever the outside actions answer: after the artifacts' entries come
/// the profiles' entries, each naming its profile, at most one per profile,
/// in the order of the profile list (what each one says is
/// `law_profile_step`).
pub proof fn law_profiles_reported_in_order(c: RunContext, es: Seq<RemovalEvent>)
    requires
        c.configs.len() > 0,
    ensures
        exists|m: int, ia: Seq<int>, m2: int, ic: Seq<int>|
            artifact_record(c, run_after(c, start_state(c), es), m, ia) && profile_record(
                c,
                run_after(c, start_state(c), es),
                m,
                m2,
                ic,
            ),
{
    let r = lemma_records_run(c, es);
    assert(artifact_record(c, run_after(c, start_state(c), es), r.0, r.1));
    assert(profile_record(c, run_after(c, start_state(c), es), r.0, r.2, r.3));
}

/// Each step on an artifact either stays with it and adds nothing, or
/// leaves it: without an entry only when its package check said it is not
/// the Grok CLI, and otherwise with exactly one entry, naming it. With the
/// artifacts' record (`law_artifacts_each_reported`) this gives every Grok
/// npm package directory exactly one entry.
pub proof fn law_artifact_leaves_with_one_entry(c: RunContext, s: RunState, e: RemovalEvent)
    requires
        state_wf(c, s),
        c.configs.len() > 0,
        s.phase == Phase::Artifacts,
    ensures
        ({
            let t = next_state(c, s, e);
            let n = s.entries.len() as int;
            &&& processed(c, t) == s.index || processed(c, t) == s.index + 1
            &&& processed(c, t) == s.index ==> t.entries == s.entries
            &&& processed(c, t) == s.index + 1 ==> if s.stage == ArtifactStage::Package {
                e == RemovalEvent::PackageChecked(false) && t.entries == s.entries
            } else {
                t.entries.len() == n + 1 && t.entries.take(n) == s.entries && t.entries[n].0
                    == c.artifacts[s.index]
            }
        }),
{
    let t = next_state(c, s, e);
    let i = s.index;
    let p = c.artifacts[i];
    match (s.stage, e) {
        (ArtifactStage::Package, RemovalEvent::PackageChecked(b)) => {
            lemma_enter_artifact_shape(c, s, i + 1);
        },
        (ArtifactStage::Uninstall, RemovalEvent::Uninstalled(o)) => {
            let x = with_entries(s, seq![crate::removal::npm_entry(p, false)], false);
            lemma_enter_artifact_shape(c, x, i + 1);
            assert(x.entries.take(s.entries.len() as int) =~= s.entries);
        },
        (ArtifactStage::Exists, RemovalEvent::StillExists(v)) => {
            let x = with_entries(s, seq![crate::removal::npm_entry(p, !v)], !v);
            lemma_enter_artifact_shape(c, x, i + 1);
            assert(x.entries.take(s.entries.len() as int) =~= s.entries);
        },
        (ArtifactStage::Removal, RemovalEvent::PathRemoved(res)) => {
            let x = with_entries(s, seq![removal_entry(p, res)], res == Ok::<bool, String>(true));
            lemma_enter_artifact_shape(c, x, i + 1);
            assert(x.entries.take(s.entries.len() as int) =~= s.entries);
        },
        _ => {},
    }
}

/// Whatever the outside actions answer: every artifact that the run has
/// finished with has exactly one entry (entries name artifacts in strictly
/// increasing order, so never two), unless its package check said it is not
/// the Grok CLI, in which case it has none. So each Grok npm package
/// directory, like every other target, is reported exactly once.
pub proof fn law_each_artifact_reported_once(c: RunContext, es: Seq<RemovalEvent>)
    requires
        c.configs.len() > 0,
    ensures
        exists|m: int, idx: Seq<int>|
            artifact_record(c, run_after(c, start_state(c), es), m, idx) && forall|j: int|
                0 <= j < processed(c, run_after(c, start_state(c), es)) ==> (has_artifact_entry(
                    idx,
                    j,
                ) <==> !rejected_at(c, es, j)),
{
    let r = lemma_records_run(c, es);
    assert(artifact_record(c, run_after(c, start_state(c), es), r.0, r.1));
}

/// The guard step of a run on macOS: the `.zshrc` below the home directory
/// gets exactly one entry. When the guard was written (`Ok(true)`) it is
/// reported configured and the run records a change, so the shells will be
/// asked to restart; when it was already there (`Ok(false)`) it is reported
/// as such and nothing is recorded; an error is reported failed with its
/// message. The run then goes on to the environment store.
pub proof fn law_guard_step(c: RunContext, s: RunState, r: Result<bool, CleanupError>)
    requires
        state_wf(c, s),
        s.phase == Phase::Guard,
    ensures
        ({
            let t = next_state(c, s, RemovalEvent::Edited(r));
            let n = s.entries.len() as int;
            let zshrc = crate::paths::join_path(c.platform, c.home, ".zshrc"@);
            &&& t.entries.len() == n + 1
            &&& t.entries.take(n) == s.entries
            &&& t.phase == Phase::Environment
            &&& t.changed == (s.changed || r == Ok::<bool, CleanupError>(true))
            &&& match r {
                Ok(true) => t.entries[n] == (
                    zshrc,
                    EntryStatus::Configured,
                    "installed cmux Grok reachability guard"@,
                ),
                Ok(false) => t.entries[n] == (
                    zshrc,
                    EntryStatus::Absent,
                    "cmux Grok reachability guard already installed"@,
                ),
                Err(e) => t.entries[n] == (zshrc, EntryStatus::Failed, error_message(e)),
            }
        }),
{
    let t = next_state(c, s, RemovalEvent::Edited(r));
    let n = s.entries.len() as int;
    assert(t.entries.take(n) =~= s.entries);
}

proof fn lemma_changed_stays(c: RunContext, s: RunState, e: RemovalEvent)
    requires
        s.changed,
    ensures
        next_state(c, s, e).changed,
{
}

proof fn lemma_changed_stays_run(c: RunContext, es: Seq<RemovalEvent>, i: int)
    requires
        0 <= i <= es.len(),
        run_after(c, start_state(c), es.take(i)).changed,
    ensures
        run_after(c, start_state(c), es).changed,
    decreases es.len(),
{
    if i == es.len() {
        assert(es.take(i) =~= es);
    } else {
        let es0 = es.drop_last();
        assert(es.take(i) =~= es0.take(i));
        lemma_changed_stays_run(c, es0, i);
        lemma_changed_stays(c, run_after(c, start_state(c), es0), es.last());
    }
}

/// A run in which the guard was written asks, once finished, for the shells
/// to be restarted: its last entry is `current shell sessions`, present.
pub proof fn law_written_guard_asks_restart(c: RunContext, es: Seq<RemovalEvent>, i: int)
    requires
        0 <= i < es.len(),
        run_after(c, start_state(c), es.take(i)).phase == Phase::Guard,
        es[i] == RemovalEvent::Edited(Ok::<bool, CleanupError>(true)),
        run_after(c, start_state(c), es).phase == Phase::Finished,
    ensures
        run_after(c, start_state(c), es).entries.last() == (
            "current shell sessions"@,
            EntryStatus::Present,
            "restart existing shells with `exec zsh`"@,
        ),
{
    let s = run_after(c, start_state(c), es.take(i));
    assert(es.take(i + 1).drop_last() =~= es.take(i));
    assert(es.take(i + 1).last() == es[i]);
    lemma_run_keeps_change_record(c, es.take(i));
    law_guard_step(c, s, Ok::<bool, CleanupError>(true));
    lemma_changed_stays_run(c, es, i + 1);
    lemma_run_keeps_change_record(c, es);
}

/// The npm steps of an artifact that is a package directory. A check that
/// says it is not the Grok CLI moves on without an entry; one that says it is
/// asks npm for its global root. When the package sits directly in that
/// root, npm uninstalls it; otherwise, or when npm cannot be run, the
/// directory is removed directly. An uninstall that npm reports as failed is
/// reported failed at once and nothing is deleted; one that succeeded is
/// reported removed if the directory is gone, failed if it is still there.
pub proof fn law_npm_steps(c: RunContext, s: RunState, e: RemovalEvent)
    requires
        state_wf(c, s),
        c.configs.len() > 0,
        s.phase == Phase::Artifacts,
    ensures
        ({
            let p = c.artifacts[s.index];
            let t = next_state(c, s, e);
            let n = s.entries.len() as int;
            let failed = (
                p,
                EntryStatus::Failed,
                "npm refused to remove the package; no direct deletion attempted"@,
            );
            &&& (s.stage == ArtifactStage::Package && e == RemovalEvent::PackageChecked(true))
                ==> t.phase == Phase::Artifacts && t.index == s.index && t.stage
                == ArtifactStage::NpmRoot && t.entries == s.entries
            &&& (s.stage == ArtifactStage::Package && e == RemovalEvent::PackageChecked(false))
                ==> processed(c, t) == s.index + 1 && t.entries == s.entries
            &&& s.stage == ArtifactStage::NpmRoot ==> (e matches RemovalEvent::NpmRoot(o) ==> (
            t.phase == Phase::Artifacts && t.index == s.index && t.entries == s.entries && t.stage
                == if crate::removal::in_npm_root(c.platform, p, o) {
                ArtifactStage::Uninstall
            } else {
                ArtifactStage::Removal
            }))
            &&& s.stage == ArtifactStage::Uninstall ==> (e matches RemovalEvent::Uninstalled(o) ==> (
            match o {
                CommandOutcome::Ran { success, .. } => if success {
                    t.stage == ArtifactStage::Exists && t.index == s.index && t.entries
                        == s.entries
                } else {
                    processed(c, t) == s.index + 1 && t.entries.take(n + 1) == s.entries.push(failed)
                        && t.entries.len() == n + 1
                },
                _ => t.stage == ArtifactStage::Removal && t.index == s.index && t.entries
                    == s.entries,
            }))
            &&& s.stage == ArtifactStage::Exists ==> (e matches RemovalEvent::StillExists(x) ==> (
            processed(c, t) == s.index + 1 && t.entries.len() == n + 1 && t.entries.take(n)
                == s.entries && t.entries[n] == if x {
                failed
            } else {
                (p, EntryStatus::Removed, "removed through the npm package manager"@)
            } && t.changed == (s.changed || !x)))
        }),
{
    let p = c.artifacts[s.index];
    let n = s.entries.len() as int;
    law_artifact_leaves_with_one_entry(c, s, e);
    match (s.stage, e) {
        (ArtifactStage::Uninstall, RemovalEvent::Uninstalled(o)) => {
            let x = with_entries(s, seq![crate::removal::npm_entry(p, false)], false);
            lemma_enter_artifact_shape(c, x, s.index + 1);
            assert(x.entries =~= s.entries.push(crate::removal::npm_entry(p, false)));
        },
        (ArtifactStage::Exists, RemovalEvent::StillExists(v)) => {
            let x = with_entries(s, seq![crate::removal::npm_entry(p, !v)], !v);
            lemma_enter_artifact_shape(c, x, s.index + 1);
        },
        _ => {},
    }
}

/// The mirror step on macOS: when helpers were linked the mirror directory
/// below the home directory is reported configured and counts as a change;
/// when nothing was to be linked there is no entry; an error is reported
/// failed with its message. Then the guard is installed.
pub proof fn law_mirror_step(c: RunContext, s: RunState, r: Result<bool, CleanupError>)
    requires
        s.phase == Phase::Mirror,
    ensures
        ({
            let t = next_state(c, s, RemovalEvent::Edited(r));
            let mirror = crate::paths::join_path(
                c.platform,
                c.home,
                ".local/share/cmux-without-grok/bin"@,
            );
            &&& t.phase == Phase::Guard
            &&& t.changed == (s.changed || r == Ok::<bool, CleanupError>(true))
            &&& t.entries == s.entries + match r {
                Ok(true) => seq![
                    (mirror, EntryStatus::Configured, "created cmux helper mirror without Grok"@),
                ],
                Ok(false) => seq![],
                Err(e) => seq![(mirror, EntryStatus::Failed, error_message(e))],
            }
        }),
{
    reveal_strlit(".local/share/cmux-without-grok/bin");
    assert(crate::guard::CMUX_CLEAN_BIN@ == ".local/share/cmux-without-grok/bin"@);
}

/// The environment-store step: each key gets one entry naming the store
/// (`launchd:KEY` on macOS, `windows-user-env:KEY` on Windows): removed when
/// the command succeeded, absent when it failed (the key was not set),
/// unavailable when the command does not exist, failed when it could not
/// run; the value is never read, and the step never counts as a change.
/// Where there is no store, both keys are reported unavailable at once.
pub proof fn law_environment_step(c: RunContext, s: RunState, o: CommandOutcome)
    requires
        state_wf(c, s),
        s.phase == Phase::Environment,
    ensures
        ({
            let t = next_state(c, s, RemovalEvent::EnvCleared(o));
            let n = s.entries.len() as int;
            let key = if s.index == 0 {
                "GROK_API_KEY"@
            } else {
                "XAI_API_KEY"@
            };
            &&& t.entries.take(n) == s.entries
            &&& t.changed == s.changed
            &&& t.entries[n] == (
                if c.platform == Platform::MacOs {
                    "launchd:"@ + key
                } else {
                    "windows-user-env:"@ + key
                },
                match o {
                    CommandOutcome::Ran { success, .. } => if success {
                        EntryStatus::Removed
                    } else {
                        EntryStatus::Absent
                    },
                    CommandOutcome::NotFound => EntryStatus::Unavailable,
                    CommandOutcome::Failed => EntryStatus::Failed,
                },
                "cleared without reading the value"@,
            )
            &&& s.index == 0 ==> t.phase == Phase::Environment && t.index == 1 && t.entries.len()
                == n + 1
            &&& s.index == 1 ==> t.phase == Phase::Finished && t.entries.len() == n + 2
        }),
{
    reveal_strlit("GROK_API_KEY");
    reveal_strlit("XAI_API_KEY");
    assert(crate::credentials::GROK_API_KEY@ == "GROK_API_KEY"@);
    assert(crate::credentials::XAI_API_KEY@ == "XAI_API_KEY"@);
    let t = next_state(c, s, RemovalEvent::EnvCleared(o));
    let n = s.entries.len() as int;
    assert(t.entries.take(n) =~= s.entries);
}

} // verus!
