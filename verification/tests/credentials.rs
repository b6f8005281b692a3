use grok_eliminator::{add_cmux_guard, contains_credential_export, is_credential_export, strip_credential_exports};

#[test]
fn strips_only_credential_exports() {
    let input = "export XAI_API_KEY=secret\nkeep=1\nGROK_API_KEY=secret2\n";
    let (output, changed) = strip_credential_exports(input);
    assert!(changed);
    assert_eq!(output, "keep=1\n");
}

#[test]
fn does_not_treat_similar_names_as_credentials() {
    assert!(!contains_credential_export(
        "export XAI_API_KEY_NAME=value",
        "XAI_API_KEY"
    ));
}

#[test]
fn strips_powershell_and_fish_assignments() {
    assert!(contains_credential_export(
        "$env:XAI_API_KEY = 'secret'",
        "XAI_API_KEY"
    ));
    assert!(contains_credential_export(
        "set -gx GROK_API_KEY secret",
        "GROK_API_KEY"
    ));
}

#[test]
fn guard_is_added_once() {
    let (first, added) = add_cmux_guard("export PATH=/usr/bin\n");
    assert!(added);
    let (second, added_again) = add_cmux_guard(&first);
    assert!(!added_again);
    assert_eq!(first, second);
}

#[test]
fn strip_keeps_crlf_lines_and_removes_crlf_exports() {
    let input = "a=1\r\nexport GROK_API_KEY=x\r\nb=2\r\n";
    let (output, changed) = strip_credential_exports(input);
    assert!(changed);
    assert_eq!(output, "a=1\r\nb=2\r\n");
}

#[test]
fn strip_handles_a_last_line_without_newline() {
    let (output, changed) = strip_credential_exports("keep\n  setx XAI_API_KEY value");
    assert!(changed);
    assert_eq!(output, "keep\n");
    let (same, changed_again) = strip_credential_exports("keep\nno export");
    assert!(!changed_again);
    assert_eq!(same, "keep\nno export");
}

#[test]
fn strip_of_empty_text_changes_nothing() {
    assert_eq!(strip_credential_exports(""), (String::new(), false));
}

#[test]
fn stripping_twice_removes_nothing_more() {
    let input = "x\n\tGROK_API_KEY=1\n$env:XAI_API_KEY='v'\ny\n";
    let (once, changed) = strip_credential_exports(input);
    assert!(changed);
    assert_eq!(once, "x\ny\n");
    let (twice, changed_again) = strip_credential_exports(&once);
    assert!(!changed_again);
    assert_eq!(twice, once);
    assert!(!contains_credential_export(&once, "GROK_API_KEY"));
    assert!(!contains_credential_export(&once, "XAI_API_KEY"));
}

#[test]
fn line_forms_of_an_export() {
    assert!(is_credential_export("GROK_API_KEY=", "GROK_API_KEY"));
    assert!(is_credential_export("  export GROK_API_KEY=v", "GROK_API_KEY"));
    assert!(is_credential_export("\u{a0}setx GROK_API_KEY v", "GROK_API_KEY"));
    assert!(!is_credential_export("$env:GROK_API_KEY", "GROK_API_KEY"));
    assert!(!is_credential_export("# export GROK_API_KEY=v", "GROK_API_KEY"));
    assert!(!is_credential_export("set -gx GROK_API_KEY", "GROK_API_KEY"));
    assert!(!is_credential_export("export GROK_API_KEY =v", "GROK_API_KEY"));
}

#[test]
fn contains_looks_at_every_line() {
    assert!(contains_credential_export("a\nb\r\nexport XAI_API_KEY=1\r\n", "XAI_API_KEY"));
    assert!(!contains_credential_export("a\nb\n", "XAI_API_KEY"));
    assert!(!contains_credential_export("", "XAI_API_KEY"));
}

#[test]
fn guard_follows_a_newline() {
    let (with, added) = add_cmux_guard("export A=1");
    assert!(added);
    assert!(with.starts_with("export A=1\n# grok-eliminator:begin\n"));
    assert!(with.ends_with("# grok-eliminator:end\n"));
    let (alone, added_alone) = add_cmux_guard("");
    assert!(added_alone);
    assert!(alone.starts_with("# grok-eliminator:begin\n"));
}

#[test]
fn guard_is_not_added_over_an_older_one() {
    let (kept, added) = add_cmux_guard("_disable_cmux_grok_wrapper\n");
    assert!(!added);
    assert_eq!(kept, "_disable_cmux_grok_wrapper\n");
    let (kept2, added2) = add_cmux_guard("PATH=$HOME/.local/share/cmux-without-grok/bin:$PATH\n");
    assert!(!added2);
    assert_eq!(kept2, "PATH=$HOME/.local/share/cmux-without-grok/bin:$PATH\n");
}

#[test]
fn powershell_similar_names_are_not_credentials() {
    assert!(!contains_credential_export("$env:XAI_API_KEY_NAME = 'value'", "XAI_API_KEY"));
    assert!(!contains_credential_export("$env:XAI_API_KEYS='value'", "XAI_API_KEY"));
    assert!(!contains_credential_export("$env:XAI_API_KEY", "XAI_API_KEY"));
    assert!(contains_credential_export("$env:XAI_API_KEY\t= 'value'", "XAI_API_KEY"));
    assert!(contains_credential_export("  $env:GROK_API_KEY='value'", "GROK_API_KEY"));
    assert!(contains_credential_export("$env:XAI_API_KEY += 'x'", "XAI_API_KEY"));
    assert!(!contains_credential_export("$env:XAI_API_KEY.Trim() -eq 'x'", "XAI_API_KEY"));
    let (kept, removed) = strip_credential_exports("$env:XAI_API_KEY_NAME = 'value'\n$env:XAI_API_KEY = 's'\n");
    assert!(removed);
    assert_eq!(kept, "$env:XAI_API_KEY_NAME = 'value'\n");
}

#[test]
fn joining_texts_at_a_line_feed_joins_their_exports() {
    let key = "XAI_API_KEY";
    for (a, b) in [
        ("keep=1\r", "XAI_API_KEY=v"),
        ("export XAI_API_KEY=v\r", ""),
        ("", "keep"),
        ("x\n", "$env:XAI_API_KEY = 'v'"),
        ("XAI_API_KEY_NAME=1", "keep"),
    ] {
        let joined = format!("{a}\n{b}");
        assert_eq!(
            contains_credential_export(&joined, key),
            contains_credential_export(a, key) || contains_credential_export(b, key),
            "{a:?} / {b:?}"
        );
    }
}
