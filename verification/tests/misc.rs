use kachina::installer::elevate_from_state;
use kachina::ui_session::{dir_state, PathWritable};
use kachina::installer::{choose_location, LocationProbe, RegProbe};
use kachina::installer::{apply_path_choice, is_drive_root, needs_nest_prompt, DirProbe, DirState, SelectDirRes};
use kachina::mirror::longest_common_prefix;
use kachina::plugin::{clean_plugin_url, forced_plugin_name, is_github_source};
use kachina::scan::{join_lower, norm_rel, parent_dirs};
use kachina::session::{current, init_from_system, set_from_config, tr, Lang, LangSetting, PromptKind};

#[test]
fn dir_state_order() {
    let p = DirProbe { exists: true, empty: false, upgrade: false, writable: false, private: true };
    assert_eq!(p.state(), DirState::Unwritable);
    let p = DirProbe { writable: true, ..p };
    assert_eq!(p.state(), DirState::Private);
    let p = DirProbe { private: false, ..p };
    assert_eq!(p.state(), DirState::Writable);
    assert_eq!(DirProbe::from_facts(true, false, false, false, true, false), None);
    assert_eq!(
        DirProbe::from_facts(false, true, true, true, true, false),
        Some(DirProbe { exists: true, empty: false, upgrade: true, writable: true, private: false })
    );
    assert_eq!(
        DirProbe::from_facts(false, false, false, false, false, false),
        Some(DirProbe { exists: false, empty: true, upgrade: false, writable: false, private: false })
    );
}

#[test]
fn path_choice_nests_in_busy_dirs() {
    let busy = SelectDirRes { path: r"D:\Games\".to_string(), state: DirState::Writable, empty: false, upgrade: false };
    assert!(needs_nest_prompt(&busy));
    assert_eq!(apply_path_choice(busy.clone(), "App", true), r"D:\Games\App");
    assert_eq!(apply_path_choice(busy, "App", false), r"D:\Games\");
    let root = SelectDirRes { path: "D:/".to_string(), state: DirState::Writable, empty: false, upgrade: false };
    assert!(is_drive_root("D:/"));
    assert!(!needs_nest_prompt(&root));
    assert_eq!(apply_path_choice(root, "App", false), r"D:\App");
    let up = SelectDirRes { path: r"C:\X".to_string(), state: DirState::Writable, empty: false, upgrade: true };
    assert_eq!(apply_path_choice(up, "App", true), r"C:\X");
}

#[test]
fn common_prefix_of_archive_paths() {
    assert_eq!(longest_common_prefix(vec![]), "");
    assert_eq!(
        longest_common_prefix(vec!["root/a".into(), "root/b/c".into(), "root/".into()]),
        "root/"
    );
    assert_eq!(longest_common_prefix(vec!["abc".into(), "xbc".into()]), "");
    assert_eq!(longest_common_prefix(vec!["same".into()]), "same");
}

#[test]
fn plugin_sources() {
    assert_eq!(forced_plugin_name("plugin-abc+https://x/y"), Some("abc".to_string()));
    assert_eq!(forced_plugin_name("plugin-abc://x"), Some("abc".to_string()));
    assert_eq!(forced_plugin_name("plugin-+https://x"), None);
    assert_eq!(forced_plugin_name("https://x/plugin-a"), None);
    assert_eq!(clean_plugin_url("plugin-abc+https://x/y"), "https://x/y");
    assert_eq!(clean_plugin_url("plugin-abc://x/y"), "https://x/y");
    assert_eq!(clean_plugin_url("plugin-abc+://x/y"), "https://x/y");
    assert_eq!(clean_plugin_url("packed+https://x/y"), "https://x/y");
    assert_eq!(clean_plugin_url("a+b+http://x"), "http://x");
    assert_eq!(clean_plugin_url("no-scheme"), "no-scheme");
    assert!(is_github_source("plugin-gh+https://github.com/o/r/releases/download/${version}/a.exe"));
    assert!(!is_github_source("https://github.com/o/r/releases/latest"));
}

#[test]
fn scan_names() {
    assert_eq!(norm_rel(r"\Sub\File.TXT"), "sub/file.txt");
    assert_eq!(norm_rel("//a"), "a");
    assert_eq!(join_lower("", "A.DLL"), "a.dll");
    assert_eq!(join_lower("lib", "B"), "lib/b");
    assert_eq!(parent_dirs("a/b/c.txt"), vec!["".to_string(), "a".to_string(), "a/b".to_string()]);
    assert_eq!(parent_dirs("c.txt"), vec!["".to_string()]);
    assert_eq!(parent_dirs("/x/y"), vec!["".to_string(), "".to_string(), "x".to_string()]);
}

#[test]
fn language_setting() {
    let mut s = LangSetting::new();
    assert_eq!(current(&s), Lang::Zh);
    assert_eq!(tr(&s, "中", "en"), "中");
    kachina::session::set(&mut s, Lang::En);
    assert_eq!(tr(&s, "中", "en"), "en");
    set_from_config(&mut s, "zh", 0x0409);
    assert_eq!(current(&s), Lang::Zh);
    set_from_config(&mut s, "auto", 0x0409);
    assert_eq!(current(&s), Lang::En);
    init_from_system(&mut s, 0x0804);
    assert_eq!(current(&s), Lang::Zh);
}

#[test]
fn prompt_kind_names() {
    assert_eq!(PromptKind::ProcessRunning.as_str(), "process_running");
    assert_eq!(PromptKind::OccupiedFiles.as_str(), "occupied_files");
    assert_eq!(PromptKind::VersionMismatch.as_str(), "version_mismatch");
}

#[test]
fn install_location_search() {
    let base = LocationProbe {
        exe_dir: "C:\\dl".into(),
        exe_dir_has_exe: false,
        parent: Some(("C:\\".into(), false)),
        registry: RegProbe::NoKey,
        default_dir: Ok("C:\\Program Files\\App".into()),
        default_has_exe: false,
    };
    assert_eq!(choose_location(&base), Ok(("C:\\Program Files\\App".to_string(), false, "DEFAULT")));
    let p = LocationProbe { exe_dir_has_exe: true, ..base_clone(&base) };
    assert_eq!(choose_location(&p), Ok(("C:\\dl".to_string(), true, "CURRENT_DIR")));
    let p = LocationProbe { parent: Some(("C:\\".into(), true)), ..base_clone(&base) };
    assert_eq!(choose_location(&p), Ok(("C:\\".to_string(), true, "PARENT_DIR")));
    let p = LocationProbe { parent: None, ..base_clone(&base) };
    assert_eq!(choose_location(&p), Err("Failed to get exe parent dir".to_string()));
    let found = |has: bool, folded: bool| RegProbe::Found { location: "D:\\A".into(), has_exe: has, folded_dir: "D:\\A\\Reg".into(), folded_has_exe: folded };
    let p = LocationProbe { registry: found(true, true), ..base_clone(&base) };
    assert_eq!(choose_location(&p), Ok(("D:\\A".to_string(), true, "REG")));
    let p = LocationProbe { registry: found(false, true), ..base_clone(&base) };
    assert_eq!(choose_location(&p), Ok(("D:\\A\\Reg".to_string(), true, "REG_FOLDED")));
    let p = LocationProbe { registry: found(false, false), default_has_exe: true, ..base_clone(&base) };
    assert_eq!(choose_location(&p), Ok(("C:\\Program Files\\App".to_string(), true, "DEFAULT")));
    let p = LocationProbe { registry: RegProbe::ValueError("no value".into()), ..base_clone(&base) };
    assert_eq!(choose_location(&p), Err("no value".to_string()));
    let p = LocationProbe { default_dir: Err("environment variable not found".into()), ..base_clone(&base) };
    assert_eq!(choose_location(&p), Err("Failed to get ProgramFiles: environment variable not found".to_string()));
}

fn base_clone(p: &kachina::installer::LocationProbe) -> kachina::installer::LocationProbe {
    kachina::installer::LocationProbe {
        exe_dir: p.exe_dir.clone(),
        exe_dir_has_exe: p.exe_dir_has_exe,
        parent: p.parent.clone(),
        registry: p.registry.clone(),
        default_dir: p.default_dir.clone(),
        default_has_exe: p.default_has_exe,
    }
}

#[test]
fn uac_strategies() {
    assert_eq!(elevate_from_state(DirState::Writable, "force"), Some(true));
    assert_eq!(elevate_from_state(DirState::Private, "force"), Some(true));
    assert_eq!(elevate_from_state(DirState::Writable, "prefer-user"), Some(false));
    assert_eq!(elevate_from_state(DirState::Private, "prefer-user"), Some(false));
    assert_eq!(elevate_from_state(DirState::Unwritable, "prefer-user"), Some(true));
    assert_eq!(elevate_from_state(DirState::Writable, "prefer-admin"), Some(true));
    assert_eq!(elevate_from_state(DirState::Unwritable, "prefer-admin"), Some(true));
    assert_eq!(elevate_from_state(DirState::Private, "prefer-admin"), Some(false));
    assert_eq!(elevate_from_state(DirState::Writable, "other"), None);
    assert_eq!(dir_state(PathWritable::Private), DirState::Private);
    assert_eq!(dir_state(PathWritable::Unwritable), DirState::Unwritable);
}
