use kachina::run::running_pids;
use kachina::run::{pick_metadata, MetaPick};
use kachina::failure::ErrorChain;
use kachina::mirror::{archive_prefix, entry_name};
use kachina::run::{basename, encode_uri, insight_base, prepare_event, runtime_name, size_threshold, txn_status};
use kachina::ui_session::SessionResult;

#[test]
fn runtime_names() {
    assert_eq!(runtime_name("Microsoft.DotNet.DesktopRuntime.8"), "Microsoft .NET Runtime");
    assert_eq!(runtime_name("VCRedist.x64"), "VCRedist.x64");
}

#[test]
fn basenames() {
    assert_eq!(basename("a\\b/c.dll"), "c.dll");
    assert_eq!(basename("c.dll"), "c.dll");
    assert_eq!(basename("dir/"), "");
    assert_eq!(basename(""), "");
}

#[test]
fn size_thresholds() {
    assert_eq!(size_threshold(&[]), 0);
    assert_eq!(size_threshold(&[100, 200, 300]), 0);
    // four sizes: index max(2, 1) = 2 of [400,300,200,100] -> 200 * 8 / 10
    assert_eq!(size_threshold(&[100, 400, 200, 300]), 160);
    // twenty sizes: index min(5, 6) = 5 of 20..1 -> 15 * 8 / 10 = 12
    let v: Vec<u64> = (1..=20).collect();
    assert_eq!(size_threshold(&v), 12);
    // ten sizes: index 3
    let v: Vec<u64> = vec![10, 10, 90, 50, 70, 30, 80, 20, 60, 40];
    assert_eq!(size_threshold(&v), 48);
    assert_eq!(size_threshold(&[u64::MAX, u64::MAX, u64::MAX, u64::MAX]), ((u64::MAX as u128) * 8 / 10) as u64);
}

#[test]
fn txn_statuses() {
    assert_eq!(txn_status(&Ok(SessionResult::cancelled(false))), "cancelled");
    assert_eq!(txn_status(&Ok(SessionResult::install(true, true))), "ok");
    assert_eq!(txn_status(&Err(ErrorChain::msg("boom"))), "internal_error");
}

#[test]
fn event_names() {
    assert_eq!(prepare_event(false, false, "cdn", "1.2.3", true), "install/cdn/1.2.3");
    assert_eq!(prepare_event(true, true, "cdn", "v2", true), "update/packed+cdn/v2");
    assert_eq!(prepare_event(true, true, "cdn", "v2", false), "update/packed/v2");
    assert_eq!(insight_base("App", false, false, false, false, false), "/App?");
    assert_eq!(insight_base("App", true, false, true, false, true), "/App?non_interactive=1&uninstall=1&pack=1");
    assert_eq!(insight_base("App", false, true, false, true, false), "/App?silent=1&online=1");
}

#[test]
fn encode_uri_like_js() {
    assert_eq!(encode_uri("/App?x=1&y=a b"), "/App?x=1&y=a%20b");
    assert_eq!(encode_uri("中"), "%E4%B8%AD");
    assert_eq!(encode_uri("a\"<>%"), "a%22%3C%3E%25");
    assert_eq!(encode_uri("~*'()#!$"), "~*'()#!$");
}

#[test]
fn archive_prefixes() {
    let names = |v: &[&str]| v.iter().map(|s| s.to_string()).collect::<Vec<String>>();
    assert_eq!(archive_prefix(&names(&["root/app.exe", "root/sub/lib.dll", "changes.json"])), "root/");
    assert_eq!(archive_prefix(&names(&["app.exe", "lib.dll"])), "");
    assert_eq!(archive_prefix(&names(&["a/b/x.dll", "a/b/y.dll"])), "a/b/");
    assert_eq!(archive_prefix(&names(&["a//x", "a//y"])), "a/");
    assert_eq!(archive_prefix(&names(&[".metadata.json"])), "");
    assert_eq!(entry_name("root/app.exe", "root/"), "app.exe");
    assert_eq!(entry_name("other/app.exe", "root/"), "other/app.exe");
}

#[test]
fn metadata_choice() {
    assert_eq!(pick_metadata(None, None, false, false, false, false, false), MetaPick::Unreachable);
    assert_eq!(pick_metadata(None, Some("v2"), false, false, false, false, false), MetaPick::Online);
    assert_eq!(pick_metadata(Some("v1"), None, false, true, false, false, false), MetaPick::Local);
    assert_eq!(pick_metadata(Some("v1"), Some("v1"), false, true, false, false, false), MetaPick::Online);
    assert_eq!(pick_metadata(Some("v1"), Some("v2"), true, false, false, true, true), MetaPick::Online);
    assert_eq!(pick_metadata(Some("v1"), Some("v2"), true, false, true, false, true), MetaPick::Local);
    assert_eq!(pick_metadata(Some("v1"), Some("v2"), true, false, false, false, true), MetaPick::AskVersion);
    assert_eq!(pick_metadata(Some("v2"), Some("v1"), false, false, false, true, true), MetaPick::Local);
    assert_eq!(pick_metadata(Some("v1"), Some("v1"), true, false, false, true, true), MetaPick::Local);
}

#[test]
fn running_program_found_by_path() {
    let procs = vec![
        (10, "C:\\Games\\App\\App.exe".to_string()),
        (11, "C:\\Other\\App.exe".to_string()),
        (12, "c:/games/app/app.EXE".to_string()),
    ];
    assert_eq!(running_pids(&procs, "C:/Games/App/App.exe"), vec![10, 12]);
    assert_eq!(running_pids(&procs, "D:\\x.exe"), Vec::<u32>::new());
}
