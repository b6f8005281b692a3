use grok_eliminator::{
    artifact_detail, ArtifactProbe, AuditFacts, CleanupEngine, CleanupError, CommandOutcome,
    ConfigProbe, EntryStatus, HomeDirectory, Platform, ProbeOutcome, Report, ReportEntry,
};

fn engine(home: &str, platform: Platform) -> CleanupEngine {
    CleanupEngine::new(HomeDirectory::new(home.to_string(), platform).unwrap())
}

#[test]
fn home_must_be_absolute() {
    assert_eq!(
        HomeDirectory::new("home/u".to_string(), Platform::Other),
        Err(CleanupError::HomeMustBeAbsolute { path: "home/u".to_string() })
    );
    assert!(HomeDirectory::new("/home/u".to_string(), Platform::MacOs).is_ok());
    assert!(HomeDirectory::new("C:\\Users\\u".to_string(), Platform::Windows).is_ok());
    assert!(HomeDirectory::new("\\Users\\u".to_string(), Platform::Windows).is_err());
    assert!(HomeDirectory::new("C:Users".to_string(), Platform::Windows).is_err());
}

#[test]
fn current_home_prefers_home_over_user_profile() {
    let h = HomeDirectory::current(Some("/home/a".into()), Some("/home/b".into()), Platform::Other)
        .unwrap();
    assert_eq!(h.as_str(), "/home/a");
    let p = HomeDirectory::current(None, Some("/home/b".into()), Platform::Other).unwrap();
    assert_eq!(p.as_str(), "/home/b");
    assert_eq!(
        HomeDirectory::current(Some("rel".into()), Some("/home/b".into()), Platform::Other),
        Err(CleanupError::MissingHome)
    );
    assert_eq!(HomeDirectory::current(None, None, Platform::Other), Err(CleanupError::MissingHome));
}

#[test]
fn home_join_puts_one_separator() {
    let h = HomeDirectory::new("/home/u/".to_string(), Platform::Other).unwrap();
    assert_eq!(h.join(".grok"), "/home/u/.grok");
    let w = HomeDirectory::new("C:\\Users\\u".to_string(), Platform::Windows).unwrap();
    assert_eq!(w.join("AppData/Local/npm/grok.cmd"), "C:\\Users\\u\\AppData/Local/npm/grok.cmd");
}

#[test]
fn known_artifact_paths_are_sorted_and_unique() {
    let e = engine("/home/u", Platform::Other);
    let paths = e.known_artifact_paths(None, None);
    let expected = vec![
        "/home/u/.grok",
        "/home/u/.hermes/node/bin/grok",
        "/home/u/.hermes/node/lib/node_modules/@vibe-kit/grok-cli",
        "/home/u/.hermes/node/node_modules/@vibe-kit/grok-cli",
        "/home/u/.local/bin/grok",
        "/home/u/.local/lib/node_modules/@vibe-kit/grok-cli",
        "/home/u/.local/node_modules/@vibe-kit/grok-cli",
        "/opt/homebrew/bin/grok",
        "/opt/homebrew/lib/node_modules/@vibe-kit/grok-cli",
        "/opt/homebrew/node_modules/@vibe-kit/grok-cli",
        "/usr/local/bin/grok",
        "/usr/local/lib/node_modules/@vibe-kit/grok-cli",
        "/usr/local/node_modules/@vibe-kit/grok-cli",
    ];
    assert_eq!(paths, expected);
}

#[test]
fn paths_sort_by_component_not_by_text() {
    let e = engine("/home/u", Platform::Other);
    let paths = e.known_artifact_paths(Some("/home/u-old".to_string()), Some("/usr/local/lib/node_modules/".to_string()));
    let first_old = paths.iter().position(|p| p.starts_with("/home/u-old")).unwrap();
    let last_home = paths.iter().rposition(|p| p.starts_with("/home/u/")).unwrap();
    assert!(last_home < first_old);
    // the npm root's package is the same path as the one under the /usr/local prefix
    assert_eq!(
        paths.iter().filter(|p| p.starts_with("/usr/local/lib/node_modules")).count(),
        1
    );
    assert_eq!(paths.len(), 16);
}

#[test]
fn windows_candidates_use_windows_names() {
    let e = engine("C:\\Users\\u", Platform::Windows);
    let paths = e.known_artifact_paths(None, None);
    assert!(paths.contains(&"C:\\Users\\u\\.local/bin/grok.exe".to_string()));
    assert!(paths.contains(&"C:\\Users\\u\\.local\\grok.cmd".to_string()));
    assert!(!paths.iter().any(|p| p.starts_with("/opt")));
    assert_eq!(paths.len(), 11);
    let configs = e.shell_config_paths();
    assert_eq!(configs.len(), 2);
}

#[test]
fn npm_prefixes_in_order() {
    let e = engine("/home/u", Platform::MacOs);
    assert_eq!(
        e.npm_prefixes(Some("/x".to_string())),
        vec!["/home/u/.hermes/node", "/home/u/.local", "/opt/homebrew", "/usr/local", "/x"]
    );
    let w = engine("C:\\u", Platform::Windows);
    assert_eq!(w.npm_prefixes(None), vec!["C:\\u\\.hermes/node", "C:\\u\\.local"]);
}

#[test]
fn shell_configs_outside_windows() {
    let e = engine("/home/u", Platform::Other);
    assert_eq!(
        e.shell_config_paths(),
        vec![
            "/home/u/.zshenv",
            "/home/u/.zprofile",
            "/home/u/.zshrc",
            "/home/u/.bash_profile",
            "/home/u/.bashrc",
            "/home/u/.profile",
            "/home/u/.config/fish/config.fish",
        ]
    );
}

#[test]
fn artifact_details_follow_the_last_component() {
    assert_eq!(artifact_detail(Platform::Other, "/home/u/.grok"), "Grok user configuration");
    assert_eq!(artifact_detail(Platform::Other, "/home/u/.grok/"), "Grok user configuration");
    assert_eq!(
        artifact_detail(Platform::Other, "/usr/lib/node_modules/@vibe-kit/grok-cli"),
        "global npm Grok CLI package"
    );
    assert_eq!(artifact_detail(Platform::Other, "/usr/bin/grok"), "known Grok executable path");
    assert_eq!(artifact_detail(Platform::Other, "/usr/bin/my.grok"), "known Grok executable path");
}

#[test]
fn npm_output_is_trimmed_and_must_be_absolute() {
    let e = engine("/home/u", Platform::Other);
    assert_eq!(e.npm_path_from_output(true, b"  /usr/local\n".to_vec()), Some("/usr/local".to_string()));
    assert_eq!(e.npm_path_from_output(true, b"usr/local\n".to_vec()), None);
    assert_eq!(e.npm_path_from_output(false, b"/usr/local\n".to_vec()), None);
    assert_eq!(e.npm_path_from_output(true, vec![0xff, 0x2f]), None);
}

fn facts(platform_env: [CommandOutcome; 2]) -> AuditFacts {
    AuditFacts {
        artifacts: vec![
            ArtifactProbe { path: "/home/u/.grok".to_string(), outcome: ProbeOutcome::Exists },
            ArtifactProbe { path: "/usr/local/bin/grok".to_string(), outcome: ProbeOutcome::NotFound },
            ArtifactProbe { path: "/opt/homebrew/bin/grok".to_string(), outcome: ProbeOutcome::Failed },
        ],
        shell_configs: vec![
            ConfigProbe {
                path: "/home/u/.zshrc".to_string(),
                content: Some("export XAI_API_KEY=hidden-value\n".to_string()),
            },
            ConfigProbe { path: "/home/u/.bashrc".to_string(), content: None },
        ],
        platform_env,
        process_env: [true, false],
        cmux_wrapper_present: true,
    }
}

fn entry(target: &str, status: EntryStatus, detail: &str) -> ReportEntry {
    ReportEntry { target: target.to_string(), status, detail: detail.to_string() }
}

#[test]
fn audit_reports_paths_and_statuses_only() {
    let e = engine("/home/u", Platform::MacOs);
    let r = e.audit(&facts([
        CommandOutcome::Ran { success: true, stdout: b"value\n".to_vec() },
        CommandOutcome::Ran { success: true, stdout: b" \n".to_vec() },
    ]));
    assert_eq!(r.operation, "audit");
    let expected = vec![
        entry("/home/u/.grok", EntryStatus::Present, "Grok user configuration"),
        entry("/usr/local/bin/grok", EntryStatus::Absent, "known Grok executable path"),
        entry("/opt/homebrew/bin/grok", EntryStatus::Failed, "known Grok executable path"),
        entry("/home/u/.zshrc:GROK_API_KEY", EntryStatus::Absent, "no credential export"),
        entry(
            "/home/u/.zshrc:XAI_API_KEY",
            EntryStatus::Present,
            "credential export detected; value not inspected",
        ),
        entry("/home/u/.bashrc:GROK_API_KEY", EntryStatus::Absent, "no credential export"),
        entry("/home/u/.bashrc:XAI_API_KEY", EntryStatus::Absent, "no credential export"),
        entry("launchd:GROK_API_KEY", EntryStatus::Present, "value never displayed"),
        entry(
            "current-process-env:GROK_API_KEY",
            EntryStatus::Present,
            "parent shell requires a restart; value never displayed",
        ),
        entry("launchd:XAI_API_KEY", EntryStatus::Absent, "value never displayed"),
        entry(
            "current-process-env:XAI_API_KEY",
            EntryStatus::Absent,
            "parent shell requires a restart; value never displayed",
        ),
        entry(
            "/Applications/cmux.app/Contents/Resources/bin/grok",
            EntryStatus::PreservedByDesign,
            "signed cmux wrapper is preserved; shell reachability is guarded",
        ),
    ];
    assert_eq!(r.entries, expected);
    assert!(!r.render_text().contains("hidden-value"));
}

#[test]
fn audit_of_stores_on_other_platforms() {
    let w = engine("C:\\u", Platform::Windows);
    let r = w.audit(&facts([
        CommandOutcome::Ran { success: false, stdout: vec![] },
        CommandOutcome::NotFound,
    ]));
    assert_eq!(r.entries[7], entry("windows-user-env:GROK_API_KEY", EntryStatus::Absent, "user environment value absent"));
    assert_eq!(
        r.entries[9],
        entry("windows-user-env:XAI_API_KEY", EntryStatus::Unavailable, "reg.exe is unavailable on this machine")
    );
    assert_eq!(r.entries.len(), 11);
    let o = engine("/home/u", Platform::Other);
    let r2 = o.audit(&facts([CommandOutcome::Failed, CommandOutcome::Failed]));
    assert_eq!(
        r2.entries[7],
        entry(
            "persistent-env:GROK_API_KEY",
            EntryStatus::Unavailable,
            "persistent environment storage is shell-specific on this platform"
        )
    );
    let m = engine("/home/u", Platform::MacOs);
    let r3 = m.audit(&facts([CommandOutcome::Failed, CommandOutcome::NotFound]));
    assert_eq!(r3.entries[7].status, EntryStatus::Failed);
    assert_eq!(r3.entries[7].detail, "launchctl could not be queried");
    assert_eq!(r3.entries[9].detail, "launchctl is unavailable on this machine");
}

#[test]
fn plan_marks_present_targets_for_removal() {
    let e = engine("/home/u", Platform::MacOs);
    let f = facts([CommandOutcome::Failed, CommandOutcome::Failed]);
    let audit = e.audit(&f);
    let plan = e.plan_removal(&f);
    assert_eq!(plan.operation, "remove (dry-run)");
    assert_eq!(plan.entries.len(), audit.entries.len());
    for (a, p) in audit.entries.iter().zip(plan.entries.iter()) {
        assert_eq!(a.target, p.target);
        if a.status == EntryStatus::Present {
            assert_eq!(p.status, EntryStatus::WouldRemove);
            assert_eq!(p.detail, "would remove with --apply");
        } else {
            assert_eq!(a, p);
        }
    }
    assert_eq!(plan.entries[0].status, EntryStatus::WouldRemove);
}

#[test]
fn render_text_aligns_statuses() {
    let r = Report {
        operation: "audit".to_string(),
        entries: vec![
            entry("/x", EntryStatus::Present, "d"),
            entry("/y", EntryStatus::PreservedByDesign, "e"),
        ],
    };
    assert_eq!(
        r.render_text(),
        "operation: audit\n           present  /x  d\n preservedbydesign  /y  e"
    );
    let empty = Report { operation: "remove (applied)".to_string(), entries: vec![] };
    assert_eq!(empty.render_text(), "operation: remove (applied)");
}

#[test]
fn error_messages() {
    assert_eq!(CleanupError::MissingHome.message(), "HOME is not set to an absolute path");
    assert_eq!(
        CleanupError::Read { path: "/p".into(), source: "denied".into() }.message(),
        "failed to read /p: denied"
    );
    assert_eq!(
        CleanupError::HomeMustBeAbsolute { path: "x".into() }.message(),
        "home path must be absolute: x"
    );
    assert_eq!(
        CleanupError::UnsupportedPlatform.message(),
        "failed to create cmux mirror on this platform"
    );
}

#[test]
fn env_commands() {
    let m = engine("/home/u", Platform::MacOs);
    assert_eq!(m.env_query_command("K"), Some(vec!["launchctl".to_string(), "getenv".into(), "K".into()]));
    assert_eq!(m.env_clear_command("K"), Some(vec!["launchctl".to_string(), "unsetenv".into(), "K".into()]));
    let w = engine("C:\\u", Platform::Windows);
    assert_eq!(
        w.env_clear_command("K"),
        Some(vec!["reg".to_string(), "delete".into(), "HKCU\\Environment".into(), "/v".into(), "K".into(), "/f".into()])
    );
    assert_eq!(engine("/h", Platform::Other).env_query_command("K"), None);
    let e = m.clear_platform_env("K", &CommandOutcome::Ran { success: true, stdout: vec![] });
    assert_eq!(e, entry("launchd:K", EntryStatus::Removed, "cleared without reading the value"));
}

#[test]
fn artifact_paths_always_end_in_a_grok_name() {
    let names = [".grok", "grok", "grok.exe", "grok.cmd", "grok.ps1", "grok-cli"];
    for (home, platform, prefix, root) in [
        ("/home/u", Platform::Other, Some("/Applications/cmux.app/Contents/Resources"), Some("/")),
        ("C:\\Users\\u\\", Platform::Windows, Some("D:\\npm"), Some("\\\\server\\share")),
        ("/", Platform::MacOs, None, Some("/opt/grok-things/")),
    ] {
        let e = engine(home, platform);
        for p in e.known_artifact_paths(prefix.map(String::from), root.map(String::from)) {
            let last = p.rsplit(|c| c == '/' || (platform == Platform::Windows && c == '\\')).next().unwrap();
            assert!(names.contains(&last), "{p}");
        }
    }
}

#[test]
fn audit_is_the_same_whatever_the_secret() {
    let e = engine("/home/u", Platform::Other);
    let mut a = facts([CommandOutcome::Failed, CommandOutcome::Failed]);
    let mut b = a.clone();
    a.shell_configs[0].content = Some("export XAI_API_KEY=first-secret\n".to_string());
    b.shell_configs[0].content = Some("export XAI_API_KEY=second-secret\nalias x=y\n".to_string());
    assert_eq!(e.audit(&a), e.audit(&b));
    assert!(!e.audit(&a).render_text().contains("secret"));
}

#[test]
fn no_target_lies_in_the_cmux_application() {
    let e = engine("/Users/u", Platform::MacOs);
    let paths = e.known_artifact_paths(
        Some("/usr/local/Cellar/node".to_string()),
        Some("/Applications2/lib/node_modules".to_string()),
    );
    // 20 candidates, three of which name the same path twice
    assert_eq!(paths.len(), 17);
    for p in paths.iter().chain(e.shell_config_paths().iter()) {
        assert!(!p.starts_with("/Applications/cmux.app"), "{p}");
    }
    assert!(!e.home().join(".local/share/cmux-without-grok/bin").starts_with("/Applications/cmux.app"));
    // With an npm prefix inside the application, its artifacts are there too.
    let inside = e.known_artifact_paths(Some("/Applications/cmux.app/Contents".to_string()), None);
    assert!(inside.iter().any(|p| p.starts_with("/Applications/cmux.app/")));
}

#[test]
fn audit_does_not_depend_on_launchd_values() {
    let e = engine("/Users/u", Platform::MacOs);
    let a = facts([
        CommandOutcome::Ran { success: true, stdout: b"first-secret\n".to_vec() },
        CommandOutcome::Ran { success: true, stdout: b"\n".to_vec() },
    ]);
    let b = facts([
        CommandOutcome::Ran { success: true, stdout: b"other\n".to_vec() },
        CommandOutcome::Ran { success: true, stdout: b"  \n".to_vec() },
    ]);
    assert_eq!(e.audit(&a), e.audit(&b));
    assert!(!e.audit(&a).render_text().contains("secret"));
}

#[test]
fn windows_absolute_paths_follow_the_prefix_kinds() {
    let absolute = |p: &str| HomeDirectory::new(p.to_string(), Platform::Windows).is_ok();
    assert!(absolute("C:\\Users\\u"));
    assert!(absolute("c:/Users/u"));
    assert!(!absolute("C:Users"));
    assert!(!absolute("\\Users\\u"));
    assert!(absolute("\\\\server\\share"));
    assert!(absolute("//server/share/x"));
    assert!(!absolute("\\\\server"));
    assert!(!absolute("\\\\server\\"));
    assert!(!absolute("\\\\\\share"));
    assert!(absolute("\\\\?\\C:\\Users"));
    assert!(absolute("\\\\?\\UNC\\server\\share"));
    assert!(absolute("\\\\.\\COM42"));
    assert!(HomeDirectory::new("/home/u".to_string(), Platform::Other).is_ok());
    assert!(!HomeDirectory::new("home/u".to_string(), Platform::Other).is_ok());
}
