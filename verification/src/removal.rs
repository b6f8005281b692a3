//! `remove --apply` as a state machine: it names the next outside action
//! (a file-system change, a helper command), takes back how that went, and
//! records the report. The machine alone decides what is done, in which
//! order, and what the report says.
use vstd::prelude::*;
use crate::audit::{env_clear_entry, CommandOutcome};
use crate::credentials::{GROK_API_KEY, XAI_API_KEY};
use crate::error::{error_message, CleanupError};
use crate::guard::CMUX_CLEAN_BIN;
use crate::paths::{ends_with_name, join_path, name_code, path_ends_with_name, path_key, path_key_of, keys_equal, texts, Platform};
use crate::report::{entry_view, entry_views, make_entry, push_entry, EntryStatus, EntryView, Report, ReportEntry};
use crate::targets::{npm_output_path, opt_text, CleanupEngine};
use crate::text::chars_of;

verus! {

/// Where a removal run stands.
#[derive(Debug, Clone, Copy, PartialEq, Eq, Structural)]
pub enum Phase {
    Artifacts,
    Configs,
    Mirror,
    Guard,
    Environment,
    Finished,
}

/// What the current artifact waits for.
#[derive(Debug, Clone, Copy, PartialEq, Eq, Structural)]
pub enum ArtifactStage {
    /// Whether its `package.json` names the Grok CLI.
    Package,
    /// What `npm root --global` prints.
    NpmRoot,
    /// How `npm uninstall --global @vibe-kit/grok-cli` went.
    Uninstall,
    /// Whether it still exists after npm reported a successful uninstall.
    Exists,
    /// How removing it from the file system went.
    Removal,
}

/// How the outside action that the run asked for went.
#[derive(Debug)]
pub enum RemovalEvent {
    PackageChecked(bool),
    NpmRoot(CommandOutcome),
    Uninstalled(CommandOutcome),
    StillExists(bool),
    /// Whether something was removed, or the error message.
    PathRemoved(Result<bool, String>),
    /// Whether a profile or the mirror was changed, or the error.
    Edited(Result<bool, CleanupError>),
    EnvCleared(CommandOutcome),
}

/// The outside action that the run needs next.
#[derive(Debug, Clone, PartialEq, Eq)]
pub enum RemovalAction {
    /// Read `<path>/package.json` and tell whether it names the Grok CLI.
    CheckPackage(String),
    /// Run `npm root --global`.
    QueryNpmRoot,
    /// Run `npm uninstall --global @vibe-kit/grok-cli`.
    UninstallPackage,
    /// Tell whether the path exists.
    CheckExists(String),
    /// Remove the path (a directory with its contents), if it exists.
    RemovePath(String),
    /// Sanitize the profile (`CleanupEngine::sanitize_shell_config`).
    SanitizeConfig(String),
    /// Make the mirror of cmux helpers without Grok.
    EnsureMirror,
    /// Install the cmux guard (`CleanupEngine::guard_zshrc`).
    EnsureGuard,
    /// Run this command to remove `key` from the persistent store.
    ClearEnv { key: String, command: Vec<String> },
    /// Nothing is left to do; the report is ready.
    Finished,
}

/// `command` is the program and arguments `argv`.
pub open spec fn command_is(command: Seq<String>, argv: Option<Seq<Seq<char>>>) -> bool {
    match argv {
        Some(a) => command.len() == a.len() && forall|i: int|
            0 <= i < a.len() ==> (#[trigger] command[i])@ == a[i],
        None => false,
    }
}

/// What a run works on.
pub struct RunContext {
    pub platform: Platform,
    pub home: Seq<char>,
    pub artifacts: Seq<Seq<char>>,
    pub configs: Seq<Seq<char>>,
    pub cmux: bool,
}

/// Where a run stands, as plain values.
#[verifier::ext_equal]
pub struct RunState {
    pub phase: Phase,
    pub index: int,
    pub stage: ArtifactStage,
    pub changed: bool,
    pub entries: Seq<EntryView>,
}

pub open spec fn env_key(k: int) -> Seq<char> {
    if k == 0 {
        GROK_API_KEY@
    } else {
        XAI_API_KEY@
    }
}

/// The last entry: whether existing shells must be restarted.
pub open spec fn session_entry(changed: bool) -> EntryView {
    (
        "current shell sessions"@,
        if changed {
            EntryStatus::Present
        } else {
            EntryStatus::Absent
        },
        "restart existing shells with `exec zsh`"@,
    )
}

pub open spec fn finish(s: RunState) -> RunState {
    RunState {
        phase: Phase::Finished,
        index: 0,
        stage: s.stage,
        changed: s.changed,
        entries: s.entries.push(session_entry(s.changed)),
    }
}

/// Moving on to key `k` of the persistent environment store; where there is
/// no store, both keys are reported unavailable at once.
pub open spec fn enter_env(c: RunContext, s: RunState, k: int) -> RunState {
    if c.platform == Platform::Other {
        finish(
            RunState {
                phase: s.phase,
                index: s.index,
                stage: s.stage,
                changed: s.changed,
                entries: s.entries.push(
                    env_clear_entry(Platform::Other, env_key(0), CommandOutcome::Failed),
                ).push(env_clear_entry(Platform::Other, env_key(1), CommandOutcome::Failed)),
            },
        )
    } else if k < 2 {
        RunState {
            phase: Phase::Environment,
            index: k,
            stage: s.stage,
            changed: s.changed,
            entries: s.entries,
        }
    } else {
        finish(s)
    }
}

/// Moving on to profile `i`; after the profiles, the cmux mirror on macOS
/// when the wrapper is there, else the environment store.
pub open spec fn enter_config(c: RunContext, s: RunState, i: int) -> RunState {
    if i < c.configs.len() {
        RunState {
            phase: Phase::Configs,
            index: i,
            stage: s.stage,
            changed: s.changed,
            entries: s.entries,
        }
    } else if c.platform == Platform::MacOs && c.cmux {
        RunState {
            phase: Phase::Mirror,
            index: 0,
            stage: s.stage,
            changed: s.changed,
            entries: s.entries,
        }
    } else {
        enter_env(c, s, 0)
    }
}

/// Moving on to artifact `i`: an npm package directory (`grok-cli`) is first
/// checked, anything else is removed directly.
pub open spec fn enter_artifact(c: RunContext, s: RunState, i: int) -> RunState {
    if 0 <= i < c.artifacts.len() {
        RunState {
            phase: Phase::Artifacts,
            index: i,
            stage: if ends_with_name(c.platform, c.artifacts[i], "grok-cli"@) {
                ArtifactStage::Package
            } else {
                ArtifactStage::Removal
            },
            changed: s.changed,
            entries: s.entries,
        }
    } else {
        enter_config(c, s, 0)
    }
}

pub open spec fn with_entries(s: RunState, added: Seq<EntryView>, changed: bool) -> RunState {
    RunState {
        phase: s.phase,
        index: s.index,
        stage: s.stage,
        changed: s.changed || changed,
        entries: s.entries + added,
    }
}

pub open spec fn with_stage(s: RunState, stage: ArtifactStage) -> RunState {
    RunState { phase: s.phase, index: s.index, stage, changed: s.changed, entries: s.entries }
}

/// Whether the package directory `p` sits directly in the global npm root
/// that the query printed (its parent is the root).
pub open spec fn in_npm_root(w: Platform, p: Seq<char>, o: CommandOutcome) -> bool {
    match o {
        CommandOutcome::Ran { success, stdout } => match npm_output_path(w, success, stdout@) {
            Some(r) => path_key(w, p) == path_key(w, r) + name_code("grok-cli"@),
            None => false,
        },
        _ => false,
    }
}

pub open spec fn removal_entry(p: Seq<char>, r: Result<bool, String>) -> EntryView {
    match r {
        Ok(true) => (p, EntryStatus::Removed, "removed local Grok artifact"@),
        Ok(false) => (p, EntryStatus::Absent, "already absent"@),
        Err(m) => (p, EntryStatus::Failed, m@),
    }
}

pub open spec fn npm_entry(p: Seq<char>, removed: bool) -> EntryView {
    if removed {
        (p, EntryStatus::Removed, "removed through the npm package manager"@)
    } else {
        (p, EntryStatus::Failed, "npm refused to remove the package; no direct deletion attempted"@)
    }
}

pub open spec fn config_edit_entries(p: Seq<char>, r: Result<bool, CleanupError>) -> Seq<EntryView> {
    match r {
        Ok(true) => seq![(p, EntryStatus::Removed, "removed Grok credential exports"@)],
        Ok(false) => seq![],
        Err(e) => seq![(p, EntryStatus::Failed, error_message(e))],
    }
}

pub open spec fn mirror_target(c: RunContext) -> Seq<char> {
    join_path(c.platform, c.home, CMUX_CLEAN_BIN@)
}

pub open spec fn zshrc_target(c: RunContext) -> Seq<char> {
    join_path(c.platform, c.home, ".zshrc"@)
}

pub open spec fn mirror_entries(c: RunContext, r: Result<bool, CleanupError>) -> Seq<EntryView> {
    match r {
        Ok(true) => seq![
            (mirror_target(c), EntryStatus::Configured, "created cmux helper mirror without Grok"@),
        ],
        Ok(false) => seq![],
        Err(e) => seq![(mirror_target(c), EntryStatus::Failed, error_message(e))],
    }
}

pub open spec fn guard_entry(c: RunContext, r: Result<bool, CleanupError>) -> EntryView {
    match r {
        Ok(true) => (zshrc_target(c), EntryStatus::Configured, "installed cmux Grok reachability guard"@),
        Ok(false) => (
            zshrc_target(c),
            EntryStatus::Absent,
            "cmux Grok reachability guard already installed"@,
        ),
        Err(e) => (zshrc_target(c), EntryStatus::Failed, error_message(e)),
    }
}

pub open spec fn edit_changed(r: Result<bool, CleanupError>) -> bool {
    r == Ok::<bool, CleanupError>(true)
}

/// Whether the run takes `e` as the answer to what it asked for.
pub open spec fn accepts(s: RunState, e: RemovalEvent) -> bool {
    match s.phase {
        Phase::Artifacts => match (s.stage, e) {
            (ArtifactStage::Package, RemovalEvent::PackageChecked(_)) => true,
            (ArtifactStage::NpmRoot, RemovalEvent::NpmRoot(_)) => true,
            (ArtifactStage::Uninstall, RemovalEvent::Uninstalled(_)) => true,
            (ArtifactStage::Exists, RemovalEvent::StillExists(_)) => true,
            (ArtifactStage::Removal, RemovalEvent::PathRemoved(_)) => true,
            _ => false,
        },
        Phase::Configs | Phase::Mirror | Phase::Guard => e is Edited,
        Phase::Environment => e is EnvCleared,
        Phase::Finished => false,
    }
}

/// The next state of the run after `e`.
pub open spec fn next_state(c: RunContext, s: RunState, e: RemovalEvent) -> RunState {
    match s.phase {
        Phase::Artifacts => {
            let p = c.artifacts[s.index];
            match (s.stage, e) {
                (ArtifactStage::Package, RemovalEvent::PackageChecked(b)) => if b {
                    with_stage(s, ArtifactStage::NpmRoot)
                } else {
                    enter_artifact(c, s, s.index + 1)
                },
                (ArtifactStage::NpmRoot, RemovalEvent::NpmRoot(o)) => if in_npm_root(
                    c.platform,
                    p,
                    o,
                ) {
                    with_stage(s, ArtifactStage::Uninstall)
                } else {
                    with_stage(s, ArtifactStage::Removal)
                },
                (ArtifactStage::Uninstall, RemovalEvent::Uninstalled(o)) => match o {
                    CommandOutcome::Ran { success, .. } => if success {
                        with_stage(s, ArtifactStage::Exists)
                    } else {
                        enter_artifact(c, with_entries(s, seq![npm_entry(p, false)], false), s.index + 1)
                    },
                    _ => with_stage(s, ArtifactStage::Removal),
                },
                (ArtifactStage::Exists, RemovalEvent::StillExists(x)) => enter_artifact(
                    c,
                    with_entries(s, seq![npm_entry(p, !x)], !x),
                    s.index + 1,
                ),
                (ArtifactStage::Removal, RemovalEvent::PathRemoved(r)) => enter_artifact(
                    c,
                    with_entries(s, seq![removal_entry(p, r)], r == Ok::<bool, String>(true)),
                    s.index + 1,
                ),
                _ => s,
            }
        },
        Phase::Configs => match e {
            RemovalEvent::Edited(r) => enter_config(
                c,
                with_entries(s, config_edit_entries(c.configs[s.index], r), edit_changed(r)),
                s.index + 1,
            ),
            _ => s,
        },
        Phase::Mirror => match e {
            RemovalEvent::Edited(r) => {
                let t = with_entries(s, mirror_entries(c, r), edit_changed(r));
                RunState {
                    phase: Phase::Guard,
                    index: 0,
                    stage: t.stage,
                    changed: t.changed,
                    entries: t.entries,
                }
            },
            _ => s,
        },
        Phase::Guard => match e {
            RemovalEvent::Edited(r) => enter_env(
                c,
                with_entries(s, seq![guard_entry(c, r)], edit_changed(r)),
                0,
            ),
            _ => s,
        },
        Phase::Environment => match e {
            RemovalEvent::EnvCleared(o) => enter_env(
                c,
                with_entries(s, seq![env_clear_entry(c.platform, env_key(s.index), o)], false),
                s.index + 1,
            ),
            _ => s,
        },
        Phase::Finished => s,
    }
}

/// A run's state is one the machine can be in.
pub open spec fn state_wf(c: RunContext, s: RunState) -> bool {
    match s.phase {
        Phase::Artifacts => 0 <= s.index < c.artifacts.len() && (s.stage is Package ==> ends_with_name(
            c.platform,
            c.artifacts[s.index],
            "grok-cli"@,
        )),
        Phase::Configs => 0 <= s.index < c.configs.len(),
        Phase::Mirror | Phase::Guard => c.platform == Platform::MacOs && c.cmux,
        Phase::Environment => c.platform != Platform::Other && 0 <= s.index < 2,
        Phase::Finished => true,
    }
}

fn npm_failure_entry(p: String) -> (e: ReportEntry)
    ensures
        entry_view(e) == npm_entry(p@, false),
{
    make_entry(
        p,
        EntryStatus::Failed,
        "npm refused to remove the package; no direct deletion attempted".to_string(),
    )
}

/// The removal run of one machine.
pub struct RemovalRun {
    engine: CleanupEngine,
    artifacts: Vec<String>,
    configs: Vec<String>,
    cmux_wrapper_present: bool,
    phase: Phase,
    index: usize,
    stage: ArtifactStage,
    changed: bool,
    entries: Vec<ReportEntry>,
}

impl RemovalRun {
    pub closed spec fn context(&self) -> RunContext {
        RunContext {
            platform: self.engine.platform_view(),
            home: self.engine.home_view(),
            artifacts: texts(self.artifacts@),
            configs: texts(self.configs@),
            cmux: self.cmux_wrapper_present,
        }
    }

    pub closed spec fn state(&self) -> RunState {
        RunState {
            phase: self.phase,
            index: self.index as int,
            stage: self.stage,
            changed: self.changed,
            entries: entry_views(self.entries@),
        }
    }

    pub open spec fn wf(&self) -> bool {
        state_wf(self.context(), self.state())
    }

    fn finish(&mut self)
        ensures
            final(self).context() == old(self).context(),
            final(self).state() == finish(old(self).state()),
    {
        let e = make_entry(
            "current shell sessions".to_string(),
            if self.changed {
                EntryStatus::Present
            } else {
                EntryStatus::Absent
            },
            "restart existing shells with `exec zsh`".to_string(),
        );
        push_entry(&mut self.entries, e);
        self.phase = Phase::Finished;
        self.index = 0;
    }

    fn enter_env(&mut self, k: usize)
        requires
            k <= 2,
        ensures
            final(self).context() == old(self).context(),
            final(self).state() == enter_env(old(self).context(), old(self).state(), k as int),
            final(self).wf(),
    {
        if self.engine.platform() == Platform::Other {
            let a = self.engine.clear_platform_env(GROK_API_KEY, &CommandOutcome::Failed);
            push_entry(&mut self.entries, a);
            let b = self.engine.clear_platform_env(XAI_API_KEY, &CommandOutcome::Failed);
            push_entry(&mut self.entries, b);
            self.finish();
        } else if k < 2 {
            self.phase = Phase::Environment;
            self.index = k;
        } else {
            self.finish();
        }
    }

    fn enter_config(&mut self, i: usize)
        requires
            i <= old(self).configs.len(),
        ensures
            final(self).context() == old(self).context(),
            final(self).state() == enter_config(old(self).context(), old(self).state(), i as int),
            final(self).wf(),
    {
        if i < self.configs.len() {
            self.phase = Phase::Configs;
            self.index = i;
        } else if self.engine.platform() == Platform::MacOs && self.cmux_wrapper_present {
            self.phase = Phase::Mirror;
            self.index = 0;
        } else {
            self.enter_env(0);
        }
    }

    fn enter_artifact(&mut self, i: usize)
        requires
            i <= old(self).artifacts.len(),
        ensures
            final(self).context() == old(self).context(),
            final(self).state() == enter_artifact(old(self).context(), old(self).state(), i as int),
            final(self).wf(),
    {
        if i < self.artifacts.len() {
            let w = self.engine.platform();
            let npm = path_ends_with_name(w, &chars_of(self.artifacts[i].as_str()), "grok-cli");
            self.phase = Phase::Artifacts;
            self.index = i;
            self.stage = if npm {
                ArtifactStage::Package
            } else {
                ArtifactStage::Removal
            };
        } else {
            self.enter_config(0);
        }
    }

    /// The action that the run waits for.
    pub fn pending(&self) -> (a: RemovalAction)
        requires
            self.wf(),
        ensures
            match self.state().phase {
                Phase::Artifacts => match self.state().stage {
                    ArtifactStage::Package => a matches RemovalAction::CheckPackage(p) && p@
                        == self.context().artifacts[self.state().index],
                    ArtifactStage::NpmRoot => a is QueryNpmRoot,
                    ArtifactStage::Uninstall => a is UninstallPackage,
                    ArtifactStage::Exists => a matches RemovalAction::CheckExists(p) && p@
                        == self.context().artifacts[self.state().index],
                    ArtifactStage::Removal => a matches RemovalAction::RemovePath(p) && p@
                        == self.context().artifacts[self.state().index],
                },
                Phase::Configs => a matches RemovalAction::SanitizeConfig(p) && p@
                    == self.context().configs[self.state().index],
                Phase::Mirror => a is EnsureMirror,
                Phase::Guard => a is EnsureGuard,
                Phase::Environment => a matches RemovalAction::ClearEnv { key, command } && key@
                    == env_key(self.state().index) && command_is(
                    command@,
                    crate::audit::env_clear_argv(self.context().platform, key@),
                ),
                Phase::Finished => a is Finished,
            },
    {
        match self.phase {
            Phase::Artifacts => {
                let p = self.artifacts[self.index].clone();
                match self.stage {
                    ArtifactStage::Package => RemovalAction::CheckPackage(p),
                    ArtifactStage::NpmRoot => RemovalAction::QueryNpmRoot,
                    ArtifactStage::Uninstall => RemovalAction::UninstallPackage,
                    ArtifactStage::Exists { .. } => RemovalAction::CheckExists(p),
                    ArtifactStage::Removal => RemovalAction::RemovePath(p),
                }
            },
            Phase::Configs => RemovalAction::SanitizeConfig(self.configs[self.index].clone()),
            Phase::Mirror => RemovalAction::EnsureMirror,
            Phase::Guard => RemovalAction::EnsureGuard,
            Phase::Environment => {
                let key = if self.index == 0 {
                    GROK_API_KEY
                } else {
                    XAI_API_KEY
                };
                match self.engine.env_clear_command(key) {
                    Some(command) => RemovalAction::ClearEnv { key: key.to_string(), command },
                    None => RemovalAction::Finished,
                }
            },
            Phase::Finished => RemovalAction::Finished,
        }
    }

    /// Whether the package directory `p` is directly in the npm root that
    /// the query printed.
    fn in_npm_root(&self, p: &String, o: &CommandOutcome) -> (b: bool)
        ensures
            b == in_npm_root(self.engine.platform_view(), p@, *o),
    {
        match o {
            CommandOutcome::Ran { success, stdout } => {
                let root = self.engine.npm_path_from_output(*success, stdout.clone());
                match root {
                    Some(r) => {
                        let w = self.engine.platform();
                        let kp = path_key_of(w, &chars_of(p.as_str()));
                        let mut kr = path_key_of(w, &chars_of(r.as_str()));
                        let g = chars_of("grok-cli");
                        crate::paths::push_name_code_of(&mut kr, &g);
                        keys_equal(&kp, &kr)
                    },
                    None => false,
                }
            },
            _ => false,
        }
    }

    /// `resume` while an artifact is being handled.
    fn resume_artifact(&mut self, e: RemovalEvent)
        requires
            old(self).wf(),
            old(self).phase == Phase::Artifacts,
        ensures
            final(self).wf(),
            final(self).context() == old(self).context(),
            final(self).state() == next_state(old(self).context(), old(self).state(), e),
    {
        let ghost c = self.context();
        let ghost s = self.state();
        let i = self.index;
        assert(c.artifacts.len() == self.artifacts.len());
        assert(i < self.artifacts.len());
        assert(self.artifacts@[i as int]@ == c.artifacts[i as int]);
        match (self.stage, e) {
            (ArtifactStage::Package, RemovalEvent::PackageChecked(b)) => {
                if b {
                    self.stage = ArtifactStage::NpmRoot;
                } else {
                    self.enter_artifact(i + 1);
                }
            },
            (ArtifactStage::NpmRoot, RemovalEvent::NpmRoot(o)) => {
                let p = self.artifacts[i].clone();
                if self.in_npm_root(&p, &o) {
                    self.stage = ArtifactStage::Uninstall;
                } else {
                    self.stage = ArtifactStage::Removal;
                }
            },
            (ArtifactStage::Uninstall, RemovalEvent::Uninstalled(o)) => {
                match o {
                    CommandOutcome::Ran { success, .. } => {
                        if success {
                            self.stage = ArtifactStage::Exists;
                        } else {
                            let p = self.artifacts[i].clone();
                            push_entry(&mut self.entries, npm_failure_entry(p));
                            self.enter_artifact(i + 1);
                        }
                    },
                    _ => {
                        self.stage = ArtifactStage::Removal;
                    },
                }
            },
            (ArtifactStage::Exists, RemovalEvent::StillExists(x)) => {
                let ok = !x;
                let p = self.artifacts[i].clone();
                let entry = if ok {
                    make_entry(p, EntryStatus::Removed, "removed through the npm package manager".to_string())
                } else {
                    npm_failure_entry(p)
                };
                push_entry(&mut self.entries, entry);
                self.changed = self.changed || ok;
                self.enter_artifact(i + 1);
            },
            (ArtifactStage::Removal, RemovalEvent::PathRemoved(r)) => {
                let p = self.artifacts[i].clone();
                let ghost rv = r;
                let entry = match r {
                    Ok(true) => {
                        self.changed = true;
                        make_entry(p, EntryStatus::Removed, "removed local Grok artifact".to_string())
                    },
                    Ok(false) => make_entry(p, EntryStatus::Absent, "already absent".to_string()),
                    Err(m) => make_entry(p, EntryStatus::Failed, m),
                };
                push_entry(&mut self.entries, entry);
                self.enter_artifact(i + 1);
            },
            _ => {},
        }
        proof {
            assert(self.state() =~~= next_state(c, s, e));
        }
    }

    /// Takes how the pending action went and moves on; an event that does not
    /// answer the pending action leaves the run as it was.
    pub fn resume(&mut self, e: RemovalEvent)
        requires
            old(self).wf(),
        ensures
            final(self).wf(),
            final(self).context() == old(self).context(),
            final(self).state() == next_state(old(self).context(), old(self).state(), e),
            !accepts(old(self).state(), e) ==> final(self).state() == old(self).state(),
    {
        let ghost c = self.context();
        let ghost s = self.state();
        match self.phase {
            Phase::Artifacts => {
                self.resume_artifact(e);
            },
            Phase::Configs => {
                let i = self.index;
                assert(c.configs.len() == self.configs.len());
                assert(i < self.configs.len());
                assert(self.configs@[i as int]@ == c.configs[i as int]);
                match e {
                    RemovalEvent::Edited(r) => {
                        let p = self.configs[i].clone();
                        match r {
                            Ok(true) => {
                                self.changed = true;
                                push_entry(
                                    &mut self.entries,
                                    make_entry(p, EntryStatus::Removed, "removed Grok credential exports".to_string()),
                                );
                            },
                            Ok(false) => {},
                            Err(err) => {
                                push_entry(
                                    &mut self.entries,
                                    make_entry(p, EntryStatus::Failed, err.message()),
                                );
                            },
                        }
                        self.enter_config(i + 1);
                    },
                    _ => {},
                }
            },
            Phase::Mirror => {
                match e {
                    RemovalEvent::Edited(r) => {
                        let t = self.engine.home().join(CMUX_CLEAN_BIN);
                        match r {
                            Ok(true) => {
                                self.changed = true;
                                push_entry(
                                    &mut self.entries,
                                    make_entry(t, EntryStatus::Configured, "created cmux helper mirror without Grok".to_string()),
                                );
                            },
                            Ok(false) => {},
                            Err(err) => {
                                push_entry(&mut self.entries, make_entry(t, EntryStatus::Failed, err.message()));
                            },
                        }
                        self.phase = Phase::Guard;
                        self.index = 0;
                    },
                    _ => {},
                }
            },
            Phase::Guard => {
                match e {
                    RemovalEvent::Edited(r) => {
                        let t = self.engine.home().join(".zshrc");
                        let entry = match r {
                            Ok(true) => {
                                self.changed = true;
                                make_entry(t, EntryStatus::Configured, "installed cmux Grok reachability guard".to_string())
                            },
                            Ok(false) => make_entry(
                                t,
                                EntryStatus::Absent,
                                "cmux Grok reachability guard already installed".to_string(),
                            ),
                            Err(err) => make_entry(t, EntryStatus::Failed, err.message()),
                        };
                        push_entry(&mut self.entries, entry);
                        self.enter_env(0);
                    },
                    _ => {},
                }
            },
            Phase::Environment => {
                match e {
                    RemovalEvent::EnvCleared(o) => {
                        let k = self.index;
                        let key = if k == 0 {
                            GROK_API_KEY
                        } else {
                            XAI_API_KEY
                        };
                        let entry = self.engine.clear_platform_env(key, &o);
                        push_entry(&mut self.entries, entry);
                        self.enter_env(k + 1);
                    },
                    _ => {},
                }
            },
            Phase::Finished => {},
        }
        proof {
            assert(self.state() =~~= next_state(c, s, e));
        }
    }

    /// Whether the run is over.
    pub fn is_finished(&self) -> (b: bool)
        ensures
            b == (self.state().phase == Phase::Finished),
    {
        self.phase == Phase::Finished
    }

    /// The report of the run so far.
    pub fn report(&self) -> (r: Report)
        ensures
            r.operation@ == "remove (applied)"@,
            entry_views(r.entries@) == self.state().entries,
    {
        let mut entries: Vec<ReportEntry> = Vec::new();
        let mut i: usize = 0;
        while i < self.entries.len()
            invariant
                i <= self.entries.len(),
                entry_views(entries@) == entry_views(self.entries@).take(i as int),
            decreases self.entries.len() - i,
        {
            let e = &self.entries[i];
            push_entry(&mut entries, make_entry(e.target.clone(), e.status, e.detail.clone()));
            assert(entry_views(self.entries@).take(i + 1) =~= entry_views(self.entries@).take(
                i as int,
            ).push(entry_view(self.entries@[i as int])));
            i = i + 1;
        }
        assert(entry_views(self.entries@).take(i as int) =~= entry_views(self.entries@));
        Report { operation: "remove (applied)".to_string(), entries }
    }
}

impl CleanupEngine {
    /// Starts `remove --apply`: the removal of the known artifacts (given
    /// what the npm queries printed, see `known_artifact_paths`), of the
    /// credential exports in the shell profiles, and of the keys in the
    /// persistent environment store, with the cmux mirror and guard when the
    /// signed cmux application ships a `grok` wrapper. The returned run names
    /// each outside action in turn (`RemovalRun::pending`).
    pub fn apply_removal(
        &self,
        npm_prefix: Option<String>,
        npm_root: Option<String>,
        cmux_wrapper_present: bool,
    ) -> (run: RemovalRun)
        ensures
            run.wf(),
            run.context().platform == self.platform_view(),
            run.context().home == self.home_view(),
            run.context().cmux == cmux_wrapper_present,
            crate::paths::sorted_unique_paths(
                self.platform_view(),
                run.context().artifacts,
                crate::targets::artifact_candidates(
                    self.platform_view(),
                    self.home_view(),
                    opt_text(npm_prefix),
                    opt_text(npm_root),
                ),
            ),
            run.context().configs == crate::targets::shell_config_list(
                self.platform_view(),
                self.home_view(),
            ),
            run.state() == enter_artifact(
                run.context(),
                RunState {
                    phase: Phase::Artifacts,
                    index: 0,
                    stage: ArtifactStage::Removal,
                    changed: false,
                    entries: seq![],
                },
                0,
            ),
    {
        let artifacts = self.known_artifact_paths(npm_prefix, npm_root);
        let configs = self.shell_config_paths();
        let mut run = RemovalRun {
            engine: self.clone(),
            artifacts,
            configs,
            cmux_wrapper_present,
            phase: Phase::Artifacts,
            index: 0,
            stage: ArtifactStage::Removal,
            changed: false,
            entries: Vec::new(),
        };
        assert(entry_views(run.entries@) =~= Seq::<EntryView>::empty());
        run.enter_artifact(0);
        run
    }

}

} // verus!
