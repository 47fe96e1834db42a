use kachina::cli::{d_tail_from, help_text, parse_from, CliExit, Command, InstallArgs};

fn os(args: &[&str]) -> Vec<String> {
    args.iter().map(|s| s.to_string()).collect()
}

fn install(argv: &[&str]) -> InstallArgs {
    match parse_from(&os(argv), None) {
        Ok(Command::Install(a)) | Ok(Command::NativeUi(a)) => a,
        other => panic!("expected install args, got {other:?}"),
    }
}

fn args() -> InstallArgs {
    InstallArgs::default()
}

#[test]
fn oracle_parity_on_supported_grammar() {
    let with_target = |t: &str| InstallArgs { target: Some(t.to_string()), ..args() };
    let cases: Vec<(&[&str], InstallArgs)> = vec![
        (&[], args()),
        (&["-S"], InstallArgs { silent: true, ..args() }),
        (&["-I"], InstallArgs { non_interactive: true, ..args() }),
        (&["-O"], InstallArgs { online: true, ..args() }),
        (&["-U"], InstallArgs { uninstall: true, ..args() }),
        (&["-SI"], InstallArgs { silent: true, non_interactive: true, ..args() }),
        (&["-IS"], InstallArgs { silent: true, non_interactive: true, ..args() }),
        (&["-SOU"], InstallArgs { silent: true, online: true, uninstall: true, ..args() }),
        (&["-D", r"C:\App"], with_target(r"C:\App")),
        (&[r"-DC:\App"], with_target(r"C:\App")),
        (&[r"-D=C:\App"], with_target(r"C:\App")),
        (
            &["-S", "-D", r"C:\Program Files\App"],
            InstallArgs { silent: true, ..with_target(r"C:\Program Files\App") },
        ),
        (&["--source", "cdn"], InstallArgs { source: Some("cdn".into()), ..args() }),
        (&["--source=cdn"], InstallArgs { source: Some("cdn".into()), ..args() }),
        (&["--dfs-extras", r#"{"a":1}"#], InstallArgs { dfs_extras: Some(r#"{"a":1}"#.into()), ..args() }),
        (&["--mirrorc-cdk", "KEY123"], InstallArgs { mirrorc_cdk: Some("KEY123".into()), ..args() }),
        (&["--dump-dir", r"C:\dump"], InstallArgs { dump_dir: Some(r"C:\dump".into()), ..args() }),
        (
            &["-S", "--source=cdn", "-D", r"C:\x"],
            InstallArgs { silent: true, source: Some("cdn".into()), ..with_target(r"C:\x") },
        ),
        (&["install", "-S"], InstallArgs { silent: true, ..args() }),
        (
            &["install", "-D", r"C:\App", "-I"],
            InstallArgs { non_interactive: true, ..with_target(r"C:\App") },
        ),
        (
            &["native-ui", "-S", "--source", "cdn"],
            InstallArgs { silent: true, source: Some("cdn".into()), ..args() },
        ),
    ];
    for (case, expected) in cases {
        assert_eq!(install(case), expected, "mismatch on {case:?}");
    }
}

#[test]
fn subcommands_dispatch() {
    assert!(matches!(parse_from(&os(&["install-webview2"]), None), Ok(Command::InstallWebview2)));
    assert!(matches!(
        parse_from(&os(&["native-ui", "-S"]), None),
        Ok(Command::NativeUi(a)) if a.silent
    ));
    match parse_from(&os(&["headless-uac", "pipe-123"]), None) {
        Ok(Command::HeadlessUac(u)) => assert_eq!(u.pipe_id, "pipe-123"),
        other => panic!("expected HeadlessUac, got {other:?}"),
    }
}

#[test]
fn slash_aliases() {
    assert!(install(&["/S"]).silent);
    assert!(install(&["/s"]).silent);
    assert!(install(&["/VERYSILENT"]).silent);
    assert!(install(&["/verysilent"]).silent);
    assert!(install(&["/SILENT"]).non_interactive);
    assert_eq!(install(&[r#"/DIR="C:\App""#]).target.as_deref(), Some(r"C:\App"));
    assert_eq!(install(&[r"/DIR=C:\App"]).target.as_deref(), Some(r"C:\App"));
}

#[test]
fn d_tail_parses_unquoted_spaces() {
    assert_eq!(
        d_tail_from(r#""C:\dl\inst.exe" /S /D=C:\Program Files\App"#),
        Some(r"C:\Program Files\App".to_string())
    );
    assert_eq!(d_tail_from(r#""C:\dl\inst.exe" /d="C:\App""#), Some(r"C:\App".to_string()));
    assert_eq!(d_tail_from(r#""C:\dl\inst.exe" -S"#), None);
    assert_eq!(d_tail_from(r#""C:\x/d=y\inst.exe""#), None);
}

#[test]
fn target_precedence_dash_wins_over_slash() {
    match parse_from(&os(&["-D", r"C:\Explicit"]), Some(r"C:\FromTail".to_string())) {
        Ok(Command::Install(a)) => assert_eq!(a.target.as_deref(), Some(r"C:\Explicit")),
        other => panic!("{other:?}"),
    }
    match parse_from(&os(&["/S"]), Some(r"C:\FromTail".to_string())) {
        Ok(Command::Install(a)) => {
            assert!(a.silent);
            assert_eq!(a.target.as_deref(), Some(r"C:\FromTail"))
        }
        other => panic!("{other:?}"),
    }
}

#[test]
fn lenient_unknown_input() {
    assert_eq!(install(&["--foo"]), InstallArgs::default());
    assert_eq!(install(&["-Z"]), InstallArgs::default());
    assert_eq!(install(&[r"C:\dropped\file.txt"]), InstallArgs::default());
    assert_eq!(install(&["/NCRC"]), InstallArgs::default());
    let a = install(&["--typo", "-S"]);
    assert!(a.silent);
    let a = install(&["-ZS"]);
    assert!(a.silent);
}

#[test]
fn help_lists_visible_hides_hidden() {
    let text = help_text();
    assert!(text.contains("-D <DIR>"));
    assert!(text.contains("-S"));
    assert!(text.contains("--help"));
    assert!(!text.contains("--source"));
    assert!(!text.contains("--mirrorc-cdk"));
}

#[test]
fn help_text_is_padded_to_a_column() {
    let text = help_text();
    assert!(text.starts_with("Kachina Installer\n\nUsage: installer.exe [OPTIONS]\n\nOptions:\n"));
    assert!(text.contains(&format!("  -D <DIR>{}Install directory\n", " ".repeat(8))));
    assert!(text.contains(&format!("  -U{}Uninstall\n", " ".repeat(14))));
    assert!(text.ends_with(&format!("  -h, --help{}Print help\n", " ".repeat(6))));
}

#[test]
fn help_flags_end_parsing() {
    assert_eq!(parse_from(&os(&["-S", "--help"]), None), Err(CliExit::Help));
    assert_eq!(parse_from(&os(&["/?"]), None), Err(CliExit::Help));
    assert_eq!(parse_from(&os(&["install", "-h"]), None), Err(CliExit::Help));
}

#[test]
fn headless_uac_without_pipe_is_refused() {
    assert_eq!(parse_from(&os(&["headless-uac"]), None), Err(CliExit::MissingPipeId));
}

#[test]
fn value_flag_without_value_is_dropped() {
    assert_eq!(install(&["-D"]), InstallArgs::default());
    assert_eq!(install(&["--source"]), InstallArgs::default());
    // a value flag takes the next token even when it looks like a flag
    assert_eq!(install(&["-D", "-S"]).target.as_deref(), Some("-S"));
}

#[test]
fn positional_tokens_are_ignored() {
    assert_eq!(install(&["file.txt", "-S"]), install(&["-S"]));
}

#[test]
fn d_tail_quote_alone_is_kept() {
    assert_eq!(d_tail_from(r#"x /D=""#), Some("\"".to_string()));
    assert_eq!(d_tail_from("x /D=   "), None);
    assert_eq!(d_tail_from("x\t/D=C:\\A\\B "), Some("C:\\A\\B".to_string()));
}
