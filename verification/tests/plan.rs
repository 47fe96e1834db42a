use kachina::scan::split_by_skip;
use kachina::builder::InstallerInfo;
use kachina::ui_session::SourceItem;
use kachina::mirror::{digest_ok, finish_extract, is_meta_entry, mirrorc_deletes, MirrorcChangeset};
use kachina::run::{finish_plan, release_size, uninstall_files, uninstall_paths, source_id, install_items, mirrorc_archive, mirrorc_cdk, occupied_files, with_updater, FileMeta, PlanFile};
use kachina::sorted::{lex_less, sorted_unique};

fn meta(name: &str, size: u64) -> FileMeta {
    FileMeta { file_name: name.to_string(), size, md5: Some(format!("m{size}")), xxh: None, installer: None }
}

fn plan(name: &str, install: bool, unwritable: bool) -> PlanFile {
    PlanFile { file_name: name.to_string(), install, unwritable }
}

fn strings(v: &[&str]) -> Vec<String> {
    v.iter().map(|s| s.to_string()).collect()
}

#[test]
fn updater_added_to_network_update() {
    let inst = Some(InstallerInfo { size: 7, md5: Some("abc".to_string()), xxh: Some("x1".to_string()) });
    let out = with_updater(vec![meta("app.exe", 1)], &inst, "updater.exe", true, false);
    assert_eq!(out.len(), 2);
    assert_eq!(out[0].file_name, "app.exe");
    assert_eq!(out[1].file_name, "updater.exe");
    assert_eq!(out[1].size, 7);
    assert_eq!(out[1].md5.as_deref(), Some("abc"));
    assert_eq!(out[1].xxh.as_deref(), Some("x1"));
    assert_eq!(out[1].installer, Some(true));
}

#[test]
fn updater_not_added_twice_or_outside_updates() {
    let inst = Some(InstallerInfo { size: 7, md5: None, xxh: None });
    assert_eq!(with_updater(vec![meta("updater.exe", 3)], &inst, "updater.exe", true, false).len(), 1);
    assert_eq!(with_updater(vec![meta("app.exe", 1)], &inst, "updater.exe", false, false).len(), 1);
    assert_eq!(with_updater(vec![meta("app.exe", 1)], &inst, "updater.exe", true, true).len(), 1);
    assert_eq!(with_updater(vec![meta("app.exe", 1)], &None, "updater.exe", true, false).len(), 1);
}

#[test]
fn occupied_files_leave_out_updater_and_writable() {
    let p = vec![
        plan("a.dll", true, true),
        plan("b.dll", true, false),
        plan("updater.exe", true, true),
        plan("c.dll", false, true),
        plan("d.dll", true, true),
    ];
    assert_eq!(occupied_files(&p, "updater.exe"), strings(&["a.dll", "d.dll"]));
    assert!(occupied_files(&Vec::new(), "updater.exe").is_empty());
}

#[test]
fn install_items_follow_plan_order() {
    let hashed = vec![meta("a.dll", 1), meta("b.dll", 2), meta("a.dll", 9)];
    let p = vec![plan("b.dll", true, false), plan("x.dll", true, false), plan("a.dll", true, false), plan("a.dll", false, false)];
    let items = install_items(&p, &hashed);
    let names: Vec<(&str, u64)> = items.iter().map(|m| (m.file_name.as_str(), m.size)).collect();
    assert_eq!(names, vec![("b.dll", 2), ("a.dll", 1)]);
}

#[test]
fn mirrorc_cdk_must_be_given() {
    assert_eq!(mirrorc_cdk(&Some("K1".to_string())).ok().as_deref(), Some("K1"));
    assert_eq!(mirrorc_cdk(&Some(String::new())).err().unwrap().code, "MIRRORC_CDK_MISSING");
    assert_eq!(mirrorc_cdk(&None).err().unwrap().code, "MIRRORC_CDK_MISSING");
}

#[test]
fn mirrorc_archive_names_zip_by_digest() {
    let (url, name) = mirrorc_archive(Some("https://x/y.zip".to_string()), Some("ab12".to_string())).ok().unwrap();
    assert_eq!(url, "https://x/y.zip");
    assert_eq!(name, "KachinaInstaller_Mirrorc_ab12.zip");
    assert_eq!(mirrorc_archive(None, Some("ab".to_string())).err().unwrap().code, "MIRRORC_FAILED");
    assert_eq!(mirrorc_archive(Some("u".to_string()), None).err().unwrap().code, "MIRRORC_FAILED");
}

#[test]
fn archive_digest_ignores_ascii_case() {
    assert!(digest_ok("", "anything"));
    assert!(digest_ok("ABCdef01", "abcDEF01"));
    assert!(!digest_ok("00", "abcdef"));
    assert!(!digest_ok("ab", "abc"));
}

#[test]
fn archive_own_files_are_not_extracted() {
    assert!(is_meta_entry("changes.json", "root/"));
    assert!(is_meta_entry(".metadata.json", "root/"));
    assert!(is_meta_entry("root/.metadata.json", "root/"));
    assert!(!is_meta_entry("app.exe", "root/"));
    assert!(!is_meta_entry("sub/changes.json", ""));
}

#[test]
fn mirrorc_deletes_strip_dir_sort_and_dedup() {
    let changes = Some(strings(&["root/old.dll", "root\\sub\\x.dll", "other/y.dll"]));
    let meta = Some(strings(&["b.dll", "old.dll", "a\\c.dll"]));
    assert_eq!(
        mirrorc_deletes(&changes, &meta, "root/"),
        strings(&["a/c.dll", "b.dll", "old.dll", "other/y.dll", "root/sub/x.dll"])
    );
    assert_eq!(mirrorc_deletes(&Some(strings(&["root/old.dll"])), &None, "root/"), strings(&["old.dll"]));
    assert_eq!(mirrorc_deletes(&None, &Some(strings(&["x.dll"])), ""), strings(&["x.dll"]));
    assert!(mirrorc_deletes(&None, &None, "").is_empty());
}

#[test]
fn sorted_unique_matches_sort_and_dedup() {
    let input = strings(&["b", "a", "ab", "", "b", "é", "Z", "a"]);
    let mut expected = input.clone();
    expected.sort();
    expected.dedup();
    let out = sorted_unique(&input);
    assert_eq!(out, expected);
    assert_eq!(sorted_unique(&out), out);
}

#[test]
fn text_order_is_str_order() {
    let words = ["", "a", "ab", "b", "Z", "é", "aé"];
    for x in words {
        for y in words {
            let xs: Vec<char> = x.chars().collect();
            let ys: Vec<char> = y.chars().collect();
            assert_eq!(lex_less(&xs, &ys), x < y, "{x} < {y}");
        }
    }
}

#[test]
fn scan_split_hashes_all_but_skipped() {
    let stat = vec![("A.dll".to_string(), 1u64), ("sub\\b.dll".to_string(), 2), ("c.dll".to_string(), 3)];
    let (hashed, stated) = split_by_skip(&stat, &strings(&["/Sub/B.DLL"]));
    assert_eq!(hashed, vec![("A.dll".to_string(), 1u64), ("c.dll".to_string(), 3)]);
    assert_eq!(stated, vec![("sub\\b.dll".to_string(), 2u64)]);
    let (hashed, stated) = split_by_skip(&stat, &Vec::new());
    assert_eq!(hashed, stat);
    assert!(stated.is_empty());
}

fn source(id: &str, uri: &str) -> SourceItem {
    SourceItem { id: id.to_string(), name: id.to_string(), uri: uri.to_string(), icon: None, requires_webview: false }
}

#[test]
fn source_ids_for_events() {
    assert_eq!(source_id(&None, "dfs://x"), "default");
    let list = Some(vec![source("gh", "github://a"), source("mc", "mirrorc://b"), source("dup", "mirrorc://b")]);
    assert_eq!(source_id(&list, "mirrorc://b"), "mc");
    assert_eq!(source_id(&list, "other://"), "unknown");
}

#[test]
fn uninstall_lists_files_deletes_and_updater_once() {
    let hashed = vec![meta("b.exe", 1), meta("a.dll", 2)];
    let files = uninstall_files(&hashed, &strings(&["old.dll", "a.dll"]), "up.exe");
    assert_eq!(files, strings(&["a.dll", "b.exe", "old.dll", "up.exe"]));
    assert_eq!(uninstall_files(&Vec::new(), &Vec::new(), "up.exe"), strings(&["up.exe"]));
}

#[test]
fn uninstall_keeps_user_data_unless_asked() {
    let (data, extra) = uninstall_paths(false, strings(&["D:\\App\\User"]), strings(&["D:\\App\\log"]), "C:\\Start", "C:\\Desk", "App");
    assert!(data.is_empty());
    assert_eq!(extra, strings(&["D:\\App\\log", "C:\\Start\\App", "C:\\Desk\\App.lnk"]));
    let (data, _) = uninstall_paths(true, strings(&["D:\\App\\User"]), Vec::new(), "P", "Q", "A");
    assert_eq!(data, strings(&["D:\\App\\User"]));
}

#[test]
fn extract_result_reports_change_list_deletes() {
    let changes = Some(MirrorcChangeset { added: None, deleted: Some(strings(&["root/old.dll"])), modified: None });
    let files = vec![("app.exe".to_string(), "m1".to_string()), ("sub\\lib.dll".to_string(), "m2".to_string())];
    let out = finish_extract(None, files, &changes, &None, "root/");
    assert_eq!(out.deletes, strings(&["old.dll"]));
    assert!(out.metadata.is_none());
    assert_eq!(out.files[1], ("sub/lib.dll".to_string(), "m2".to_string()));
}

#[test]
fn extract_result_reports_metadata_deletes() {
    let meta = Some(r#"{"tag_name":"v2","hashed":[],"deletes":["x.dll"]}"#.to_string());
    let out = finish_extract(meta.clone(), vec![("a.txt".to_string(), "m".to_string())], &None, &Some(strings(&["x.dll"])), "");
    assert_eq!(out.deletes, strings(&["x.dll"]));
    assert_eq!(out.metadata, meta);
}

#[test]
fn fresh_install_gets_shortcuts_and_uninstaller() {
    let p = finish_plan(true, false, "DEFAULT", "C:\\Start", "C:\\Desk", "App");
    assert_eq!(p.desktop_lnk.as_deref(), Some("C:\\Desk\\App.lnk"));
    assert_eq!(p.program_lnk.as_deref(), Some("C:\\Start\\App\\App.lnk"));
    assert!(p.uninstaller);
    assert_eq!(p.uninstall_lnk.as_deref(), Some("C:\\Start\\App\\卸载App.lnk"));
    let p = finish_plan(false, false, "DEFAULT", "S", "D", "A");
    assert!(p.desktop_lnk.is_none());
    assert!(p.program_lnk.is_some());
}

#[test]
fn update_rewrites_uninstaller_only_for_registry_paths() {
    let p = finish_plan(true, true, "REG_HKLM", "S", "D", "A");
    assert!(p.desktop_lnk.is_none() && p.program_lnk.is_none());
    assert!(p.uninstaller);
    assert_eq!(p.uninstall_lnk.as_deref(), Some("S\\A\\卸载A.lnk"));
    let p = finish_plan(true, true, "CURRENT_DIR", "S", "D", "A");
    assert!(!p.uninstaller && p.uninstall_lnk.is_none());
}

#[test]
fn release_sizes_add_up() {
    assert_eq!(release_size(&vec![meta("a", 3), meta("b", 4)]), 7);
    assert_eq!(release_size(&Vec::new()), 0);
}
