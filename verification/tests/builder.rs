use kachina::builder::{
    diff_after_hash, diff_precheck, drop_updater, keep_diff, packs_file, patch_names, release_name, stored_name,
    DiffSkip, Metadata, PackArgs,
};

fn meta(name: &str, xxh: Option<&str>, md5: Option<&str>) -> Metadata {
    Metadata { file_name: name.into(), size: 1, md5: md5.map(|s| s.into()), xxh: xxh.map(|s| s.into()) }
}

#[test]
fn release_names() {
    assert_eq!(release_name("C:\\rel\\lib\\a.dll", "C:/rel"), "lib/a.dll");
    assert_eq!(release_name("/rel/a.exe", "/rel"), "a.exe");
    // the first occurrence goes, wherever it is
    assert_eq!(release_name("x/rel/rel/a", "rel"), "x/rel/a");
    // a source written with `\` is not found in the normalized path
    assert_eq!(release_name("C:\\rel\\a", "C:\\rel"), "C:/rel/a");
}

#[test]
fn updater_is_dropped() {
    let files = vec![meta("a", Some("11"), None), meta("up.exe", Some("22"), None), meta("b", Some("33"), None)];
    let kept = drop_updater(&files, "22");
    assert_eq!(kept.iter().map(|m| m.file_name.as_str()).collect::<Vec<_>>(), vec!["a", "b"]);
    assert_eq!(drop_updater(&files, "99").len(), 3);
}

#[test]
fn stored_names_prefer_xxh() {
    assert_eq!(stored_name(&meta("a", Some("x1"), Some("m1"))), Some("x1".to_string()));
    assert_eq!(stored_name(&meta("a", None, Some("m1"))), Some("m1".to_string()));
    assert_eq!(stored_name(&meta("a", None, None)), None);
}

#[test]
fn diff_decisions() {
    assert_eq!(diff_precheck(10 << 20, true, true), Some(DiffSkip::Ignored));
    assert_eq!(diff_precheck(1048575, false, true), Some(DiffSkip::TooSmall));
    assert_eq!(diff_precheck(1048576, false, false), Some(DiffSkip::Missing));
    assert_eq!(diff_precheck(1048576, false, true), None);
    assert_eq!(diff_after_hash("ab", "ab"), Some(DiffSkip::Unchanged));
    assert_eq!(diff_after_hash("ab", "cd"), None);
    assert_eq!(patch_names("old", "new"), ("old_new.hdiff".to_string(), "old_new".to_string()));
    assert!(keep_diff(50, 100));
    assert!(keep_diff(50, 101));
    assert!(!keep_diff(51, 101));
}

#[test]
fn pack_defaults_and_filter() {
    let p = PackArgs::defaults();
    assert_eq!(p.output, "output.exe");
    assert_eq!(p.config, ".config.json");
    assert!(packs_file("data.bin"));
    assert!(!packs_file("data_old.bin"));
}
