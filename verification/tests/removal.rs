use grok_eliminator::{
    contains_credential_export, is_grok_package, mirror_outcome, removal_method, MirrorEntryResult,
    RemovalMethod, mirror_step, CleanupEngine, CleanupError, CommandOutcome, EntryStatus,
    HomeDirectory, MirrorStep, Platform, ProfileEdit, ReadOutcome, RemovalAction, RemovalEvent,
    RemovalRun,
};

fn engine(home: &str, platform: Platform) -> CleanupEngine {
    CleanupEngine::new(HomeDirectory::new(home.to_string(), platform).unwrap())
}

/// Drives a run, answering each action with `answer`.
fn drive(run: &mut RemovalRun, mut answer: impl FnMut(&RemovalAction) -> RemovalEvent) -> Vec<RemovalAction> {
    let mut seen = Vec::new();
    loop {
        let a = run.pending();
        if a == RemovalAction::Finished {
            break;
        }
        let e = answer(&a);
        seen.push(a);
        run.resume(e);
    }
    seen
}

#[test]
fn nothing_present_means_no_restart() {
    let e = engine("/home/u", Platform::Other);
    let mut run = e.apply_removal(None, None, false);
    let actions = drive(&mut run, |a| match a {
        RemovalAction::CheckPackage(_) => RemovalEvent::PackageChecked(false),
        RemovalAction::RemovePath(_) => RemovalEvent::PathRemoved(Ok(false)),
        RemovalAction::SanitizeConfig(_) => RemovalEvent::Edited(Ok(false)),
        other => panic!("unexpected action {other:?}"),
    });
    assert!(run.is_finished());
    // 5 plain paths are removed directly; 8 package directories are checked
    assert_eq!(actions.iter().filter(|a| matches!(a, RemovalAction::RemovePath(_))).count(), 5);
    assert_eq!(actions.iter().filter(|a| matches!(a, RemovalAction::CheckPackage(_))).count(), 8);
    let report = run.report();
    assert_eq!(report.operation, "remove (applied)");
    let n = report.entries.len();
    assert_eq!(n, 5 + 3);
    assert_eq!(report.entries[n - 3].target, "persistent-env:GROK_API_KEY");
    assert_eq!(report.entries[n - 3].status, EntryStatus::Unavailable);
    assert_eq!(report.entries[n - 1].target, "current shell sessions");
    assert_eq!(report.entries[n - 1].status, EntryStatus::Absent);
    assert_eq!(report.entries[n - 1].detail, "restart existing shells with `exec zsh`");
}

#[test]
fn an_event_that_does_not_answer_the_action_is_ignored() {
    let e = engine("/home/u", Platform::Other);
    let mut run = e.apply_removal(None, None, false);
    let first = run.pending();
    assert_eq!(first, RemovalAction::RemovePath("/home/u/.grok".to_string()));
    run.resume(RemovalEvent::Edited(Ok(true)));
    run.resume(RemovalEvent::PackageChecked(true));
    assert_eq!(run.pending(), first);
    assert!(run.report().entries.is_empty());
    run.resume(RemovalEvent::PathRemoved(Ok(true)));
    assert_ne!(run.pending(), first);
    assert_eq!(run.report().entries.len(), 1);
}

#[test]
fn a_removed_artifact_asks_for_a_restart() {
    let e = engine("/home/u", Platform::MacOs);
    let mut run = e.apply_removal(None, None, true);
    let actions = drive(&mut run, |a| match a {
        RemovalAction::CheckPackage(_) => RemovalEvent::PackageChecked(false),
        RemovalAction::RemovePath(p) if p == "/home/u/.grok" => RemovalEvent::PathRemoved(Ok(true)),
        RemovalAction::RemovePath(_) => RemovalEvent::PathRemoved(Err("denied".to_string())),
        RemovalAction::SanitizeConfig(_) => RemovalEvent::Edited(Ok(false)),
        RemovalAction::EnsureMirror => RemovalEvent::Edited(Ok(false)),
        RemovalAction::EnsureGuard => RemovalEvent::Edited(Ok(false)),
        RemovalAction::ClearEnv { .. } => RemovalEvent::EnvCleared(CommandOutcome::NotFound),
        other => panic!("unexpected action {other:?}"),
    });
    assert!(actions.contains(&RemovalAction::EnsureGuard));
    let report = run.report();
    assert_eq!(report.entries[0].target, "/home/u/.grok");
    assert_eq!(report.entries[0].status, EntryStatus::Removed);
    assert_eq!(report.entries[0].detail, "removed local Grok artifact");
    assert_eq!(report.entries[1].status, EntryStatus::Failed);
    assert_eq!(report.entries[1].detail, "denied");
    let guard = report.entries.iter().find(|x| x.target == "/home/u/.zshrc").unwrap();
    assert_eq!(guard.status, EntryStatus::Absent);
    assert_eq!(guard.detail, "cmux Grok reachability guard already installed");
    let last = report.entries.last().unwrap();
    assert_eq!(last.status, EntryStatus::Present);
    let env = &report.entries[report.entries.len() - 3];
    assert_eq!(env.target, "launchd:GROK_API_KEY");
    assert_eq!(env.status, EntryStatus::Unavailable);
}

#[test]
fn npm_package_outside_the_root_is_removed_directly() {
    let e = engine("/home/u", Platform::Other);
    let mut run = e.apply_removal(None, Some("/usr/lib/node_modules".to_string()), false);
    let mut roots = 0;
    let actions = drive(&mut run, |a| match a {
        RemovalAction::CheckPackage(p) => RemovalEvent::PackageChecked(p == "/usr/lib/node_modules/@vibe-kit/grok-cli"),
        RemovalAction::QueryNpmRoot => {
            roots += 1;
            RemovalEvent::NpmRoot(CommandOutcome::Ran { success: true, stdout: b"/usr/lib/node_modules\n".to_vec() })
        }
        RemovalAction::RemovePath(_) => RemovalEvent::PathRemoved(Ok(false)),
        RemovalAction::SanitizeConfig(p) if p == "/home/u/.bashrc" => RemovalEvent::Edited(Ok(true)),
        RemovalAction::SanitizeConfig(_) => RemovalEvent::Edited(Ok(false)),
        other => panic!("unexpected action {other:?}"),
    });
    assert_eq!(roots, 1);
    // the parent of `<root>/@vibe-kit/grok-cli` is `<root>/@vibe-kit`, not the root
    assert!(!actions.contains(&RemovalAction::UninstallPackage));
    assert!(actions.contains(&RemovalAction::RemovePath("/usr/lib/node_modules/@vibe-kit/grok-cli".to_string())));
    let report = run.report();
    let bash = report.entries.iter().find(|x| x.target == "/home/u/.bashrc").unwrap();
    assert_eq!(bash.status, EntryStatus::Removed);
    assert_eq!(bash.detail, "removed Grok credential exports");
    assert_eq!(report.entries.last().unwrap().status, EntryStatus::Present);
}

#[test]
fn npm_uninstall_when_the_package_sits_in_the_root() {
    let e = engine("/home/u", Platform::Other);
    // a root that holds `grok-cli` directly: `<root>/@vibe-kit` printed as the root
    let mut run = e.apply_removal(None, Some("/r".to_string()), false);
    let actions = drive(&mut run, |a| match a {
        RemovalAction::CheckPackage(p) => RemovalEvent::PackageChecked(p == "/r/@vibe-kit/grok-cli"),
        RemovalAction::QueryNpmRoot => {
            RemovalEvent::NpmRoot(CommandOutcome::Ran { success: true, stdout: b"/r/@vibe-kit\n".to_vec() })
        }
        RemovalAction::UninstallPackage => {
            RemovalEvent::Uninstalled(CommandOutcome::Ran { success: true, stdout: vec![] })
        }
        RemovalAction::CheckExists(_) => RemovalEvent::StillExists(false),
        RemovalAction::RemovePath(_) => RemovalEvent::PathRemoved(Ok(false)),
        RemovalAction::SanitizeConfig(_) => RemovalEvent::Edited(Err(CleanupError::Read {
            path: "/p".to_string(),
            source: "denied".to_string(),
        })),
        other => panic!("unexpected action {other:?}"),
    });
    assert!(actions.contains(&RemovalAction::UninstallPackage));
    let report = run.report();
    let pkg = report.entries.iter().find(|x| x.target == "/r/@vibe-kit/grok-cli").unwrap();
    assert_eq!(pkg.status, EntryStatus::Removed);
    assert_eq!(pkg.detail, "removed through the npm package manager");
    let zshenv = report.entries.iter().find(|x| x.target == "/home/u/.zshenv").unwrap();
    assert_eq!(zshenv.status, EntryStatus::Failed);
    assert_eq!(zshenv.detail, "failed to read /p: denied");
}

#[test]
fn failed_npm_uninstall_is_reported_without_deleting() {
    let e = engine("/home/u", Platform::Other);
    let mut run = e.apply_removal(None, Some("/r".to_string()), false);
    let actions = drive(&mut run, |a| match a {
        RemovalAction::CheckPackage(p) => RemovalEvent::PackageChecked(p == "/r/@vibe-kit/grok-cli"),
        RemovalAction::QueryNpmRoot => {
            RemovalEvent::NpmRoot(CommandOutcome::Ran { success: true, stdout: b"/r/@vibe-kit".to_vec() })
        }
        RemovalAction::UninstallPackage => {
            RemovalEvent::Uninstalled(CommandOutcome::Ran { success: false, stdout: vec![] })
        }
        RemovalAction::RemovePath(_) => RemovalEvent::PathRemoved(Ok(false)),
        RemovalAction::SanitizeConfig(_) => RemovalEvent::Edited(Ok(false)),
        other => panic!("unexpected action {other:?}"),
    });
    // npm reported a failure: nothing is probed or deleted afterwards
    assert!(!actions.iter().any(|a| matches!(a, RemovalAction::CheckExists(_))));
    assert!(!actions.contains(&RemovalAction::RemovePath("/r/@vibe-kit/grok-cli".to_string())));
    let report = run.report();
    let pkg = report.entries.iter().find(|x| x.target == "/r/@vibe-kit/grok-cli").unwrap();
    assert_eq!(pkg.status, EntryStatus::Failed);
    assert_eq!(pkg.detail, "npm refused to remove the package; no direct deletion attempted");
    assert_eq!(report.entries.last().unwrap().status, EntryStatus::Absent);
}

#[test]
fn sanitizing_profiles() {
    let mac = engine("/Users/u", Platform::MacOs);
    let read = ReadOutcome::Text("export GROK_API_KEY=x\nkeep\n".to_string());
    assert_eq!(
        mac.sanitize_shell_config("/Users/u/.bashrc", read.clone(), true),
        ProfileEdit::Write("keep\n".to_string())
    );
    match mac.sanitize_shell_config("/Users/u/.zshrc", ReadOutcome::Text("keep\n".to_string()), true) {
        ProfileEdit::Write(t) => {
            assert!(t.starts_with("keep\n# grok-eliminator:begin\n"));
        }
        other => panic!("unexpected {other:?}"),
    }
    assert_eq!(
        mac.sanitize_shell_config("/Users/u/.zshrc", ReadOutcome::Text("keep\n".to_string()), false),
        ProfileEdit::Unchanged
    );
    assert_eq!(
        mac.sanitize_shell_config("/Users/u/.bashrc", ReadOutcome::NotFound, true),
        ProfileEdit::Unchanged
    );
    assert_eq!(
        mac.sanitize_shell_config("/Users/u/.bashrc", ReadOutcome::Failed("denied".into()), true),
        ProfileEdit::Fail(CleanupError::Read { path: "/Users/u/.bashrc".into(), source: "denied".into() })
    );
}

#[test]
fn sanitized_zshrc_with_guard_exports_no_key() {
    let mac = engine("/Users/u", Platform::MacOs);
    let read = ReadOutcome::Text("export XAI_API_KEY=v\r\nkeep\r".to_string());
    match mac.sanitize_shell_config("/Users/u/.zshrc", read, true) {
        ProfileEdit::Write(t) => {
            assert!(t.starts_with("keep\r\n# grok-eliminator:begin\n"));
            assert!(t.ends_with("# grok-eliminator:end\n"));
            assert!(!contains_credential_export(&t, "XAI_API_KEY"));
            assert!(!contains_credential_export(&t, "GROK_API_KEY"));
        }
        other => panic!("unexpected {other:?}"),
    }
}

#[test]
fn guarding_the_zshrc() {
    let mac = engine("/Users/u", Platform::MacOs);
    match mac.guard_zshrc("/Users/u/.zshrc", ReadOutcome::NotFound) {
        ProfileEdit::Write(t) => assert!(t.starts_with("# grok-eliminator:begin")),
        other => panic!("unexpected {other:?}"),
    }
    assert_eq!(
        mac.guard_zshrc("/Users/u/.zshrc", ReadOutcome::Text("# grok-eliminator:end\n".into())),
        ProfileEdit::Unchanged
    );
}

#[test]
fn mirror_decisions() {
    assert_eq!(mirror_step("grok", "/b/grok", Err("x".into()), false), MirrorStep::Skip);
    assert_eq!(mirror_step("cmux", "/b/cmux", Ok(true), false), MirrorStep::Link);
    assert_eq!(mirror_step("cmux", "/b/cmux", Ok(true), true), MirrorStep::Skip);
    assert_eq!(mirror_step("dir", "/b/dir", Ok(false), false), MirrorStep::Skip);
    assert_eq!(
        mirror_step("cmux", "/b/cmux", Err("gone".into()), false),
        MirrorStep::Fail(CleanupError::Inspect { path: "/b/cmux".into(), source: "gone".into() })
    );
}

#[test]
fn grok_package_names() {
    assert!(is_grok_package(Some("@vibe-kit/grok-cli")));
    assert!(!is_grok_package(Some("grok-cli")));
    assert!(!is_grok_package(None));
}

#[test]
fn npm_uninstall_that_leaves_the_package_is_a_failure() {
    let e = engine("/home/u", Platform::Other);
    let mut run = e.apply_removal(None, Some("/r".to_string()), false);
    let mut probed = 0;
    drive(&mut run, |a| match a {
        RemovalAction::CheckPackage(p) => RemovalEvent::PackageChecked(p == "/r/@vibe-kit/grok-cli"),
        RemovalAction::QueryNpmRoot => {
            RemovalEvent::NpmRoot(CommandOutcome::Ran { success: true, stdout: b"/r/@vibe-kit".to_vec() })
        }
        RemovalAction::UninstallPackage => {
            RemovalEvent::Uninstalled(CommandOutcome::Ran { success: true, stdout: vec![] })
        }
        RemovalAction::CheckExists(_) => {
            probed += 1;
            RemovalEvent::StillExists(true)
        }
        RemovalAction::RemovePath(_) => RemovalEvent::PathRemoved(Ok(false)),
        RemovalAction::SanitizeConfig(_) => RemovalEvent::Edited(Ok(false)),
        other => panic!("unexpected action {other:?}"),
    });
    assert_eq!(probed, 1);
    let report = run.report();
    let pkg = report.entries.iter().find(|x| x.target == "/r/@vibe-kit/grok-cli").unwrap();
    assert_eq!(pkg.status, EntryStatus::Failed);
    assert_eq!(report.entries.last().unwrap().status, EntryStatus::Absent);
}

#[test]
fn a_failed_removal_does_not_stop_later_targets() {
    let e = engine("/home/u", Platform::Other);
    let mut run = e.apply_removal(None, None, false);
    let actions = drive(&mut run, |a| match a {
        RemovalAction::CheckPackage(_) => RemovalEvent::PackageChecked(false),
        RemovalAction::RemovePath(_) => RemovalEvent::PathRemoved(Err("busy".to_string())),
        RemovalAction::SanitizeConfig(_) => RemovalEvent::Edited(Ok(false)),
        other => panic!("unexpected action {other:?}"),
    });
    let removed: Vec<String> = actions
        .iter()
        .filter_map(|a| match a {
            RemovalAction::RemovePath(p) => Some(p.clone()),
            _ => None,
        })
        .collect();
    assert_eq!(removed.len(), 5);
    let report = run.report();
    for (k, p) in removed.iter().enumerate() {
        assert_eq!(&report.entries[k].target, p);
        assert_eq!(report.entries[k].status, EntryStatus::Failed);
        assert_eq!(report.entries[k].detail, "busy");
    }
    assert_eq!(report.entries.last().unwrap().status, EntryStatus::Absent);
}

#[test]
fn profile_edits_do_not_depend_on_credential_values() {
    let mac = engine("/Users/u", Platform::MacOs);
    let a = mac.sanitize_shell_config("/Users/u/.zshrc", ReadOutcome::Text("export GROK_API_KEY=one\nkeep\n".into()), true);
    let b = mac.sanitize_shell_config("/Users/u/.zshrc", ReadOutcome::Text("export GROK_API_KEY=two-two\nkeep\n".into()), true);
    assert_eq!(a, b);
    assert_eq!(a.clone().outcome(Ok(())), Ok(true));
    let err = CleanupError::Write { path: "/Users/u/.zshrc".into(), source: "full".into() };
    assert_eq!(a.outcome(Err(err.clone())), Err(err));
    assert_eq!(ProfileEdit::Unchanged.outcome(Err(CleanupError::UnsupportedPlatform)), Ok(false));
}

#[test]
fn profiles_are_reported_after_the_artifacts_in_order() {
    let e = engine("/home/u", Platform::Other);
    let mut run = e.apply_removal(None, None, false);
    drive(&mut run, |a| match a {
        RemovalAction::CheckPackage(_) => RemovalEvent::PackageChecked(false),
        RemovalAction::RemovePath(_) => RemovalEvent::PathRemoved(Ok(false)),
        RemovalAction::SanitizeConfig(p) if p.ends_with("rc") => RemovalEvent::Edited(Ok(true)),
        RemovalAction::SanitizeConfig(_) => RemovalEvent::Edited(Ok(false)),
        other => panic!("unexpected action {other:?}"),
    });
    let report = run.report();
    let targets: Vec<&str> = report.entries[5..7].iter().map(|x| x.target.as_str()).collect();
    assert_eq!(targets, vec!["/home/u/.zshrc", "/home/u/.bashrc"]);
    assert!(report.entries[5..7].iter().all(|x| x.status == EntryStatus::Removed));
    assert_eq!(report.entries.len(), 5 + 2 + 3);
}

#[test]
fn mirror_outcome_is_the_first_failure_or_whether_anything_was_linked() {
    assert_eq!(mirror_outcome(vec![]), Ok(false));
    assert_eq!(mirror_outcome(vec![MirrorEntryResult::Skipped, MirrorEntryResult::Skipped]), Ok(false));
    assert_eq!(
        mirror_outcome(vec![
            MirrorEntryResult::Skipped,
            MirrorEntryResult::Linked,
            MirrorEntryResult::Skipped,
        ]),
        Ok(true)
    );
    let first = CleanupError::Write { path: "/m/a".into(), source: "denied".into() };
    let second = CleanupError::UnsupportedPlatform;
    assert_eq!(
        mirror_outcome(vec![
            MirrorEntryResult::Linked,
            MirrorEntryResult::Failed(first.clone()),
            MirrorEntryResult::Failed(second),
        ]),
        Err(first)
    );
}

#[test]
fn removal_never_follows_a_link() {
    assert_eq!(removal_method(true, false), RemovalMethod::Tree);
    assert_eq!(removal_method(true, true), RemovalMethod::Single);
    assert_eq!(removal_method(false, true), RemovalMethod::Single);
    assert_eq!(removal_method(false, false), RemovalMethod::Single);
}

#[test]
fn each_grok_package_gets_exactly_one_entry() {
    let e = engine("/home/u", Platform::Other);
    let mut run = e.apply_removal(None, Some("/usr/lib/node_modules".to_string()), false);
    let grok = "/usr/lib/node_modules/@vibe-kit/grok-cli";
    drive(&mut run, |a| match a {
        RemovalAction::CheckPackage(p) => RemovalEvent::PackageChecked(p == grok),
        RemovalAction::QueryNpmRoot => RemovalEvent::NpmRoot(CommandOutcome::Failed),
        RemovalAction::RemovePath(_) => RemovalEvent::PathRemoved(Ok(true)),
        RemovalAction::SanitizeConfig(_) => RemovalEvent::Edited(Ok(false)),
        other => panic!("unexpected action {other:?}"),
    });
    let report = run.report();
    assert_eq!(report.entries.iter().filter(|x| x.target == grok).count(), 1);
    let rejected = report
        .entries
        .iter()
        .filter(|x| x.target.ends_with("grok-cli") && x.target != grok)
        .count();
    assert_eq!(rejected, 0);
}
