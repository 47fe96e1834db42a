use kachina::lookup::{TextMap, TextSet};
use kachina::scan::{keeps_clean, scan_dirs, walk_step, WalkStep};

fn names(v: &[&str]) -> Vec<String> {
    v.iter().map(|s| s.to_string()).collect()
}

#[test]
fn scan_dirs_collect_parents_and_hashed_ones() {
    let managed = names(&["app.exe", "lib/a.dll", "user/cfg.ini", "user/sub/x.dat"]);
    let mut skip = TextSet::new();
    skip.insert("user/cfg.ini".to_string());
    skip.insert("user/sub/x.dat".to_string());
    let dirs = scan_dirs(&managed, &skip);
    for d in ["", "lib", "user", "user/sub"] {
        assert!(dirs.managed.contains(d), "{d}");
    }
    assert!(!dirs.managed.contains("other"));
    assert!(dirs.mixed.contains("") && dirs.mixed.contains("lib"));
    assert!(!dirs.mixed.contains("user") && !dirs.mixed.contains("user/sub"));
}

#[test]
fn walk_steps_follow_the_scan_rules() {
    let managed = names(&["app.exe", "lib/a.dll", "user/cfg.ini"]);
    let mut skip = TextSet::new();
    skip.insert("user/cfg.ini".to_string());
    let dirs = scan_dirs(&managed, &skip);
    let mut map = TextMap::new();
    map.insert("app.exe".to_string(), "App.exe".to_string());
    assert_eq!(walk_step("lib", true, true, &dirs, &map), WalkStep::Reparse);
    assert_eq!(walk_step("cache", false, true, &dirs, &map), WalkStep::Unmanaged);
    assert_eq!(walk_step("user", false, true, &dirs, &map), WalkStep::StatEach);
    assert_eq!(walk_step("lib", false, true, &dirs, &map), WalkStep::Descend);
    assert_eq!(walk_step("app.exe", false, false, &dirs, &map), WalkStep::Stat("App.exe".to_string()));
    assert_eq!(walk_step("notes.txt", false, false, &dirs, &map), WalkStep::Stranger);
    assert!(keeps_clean(&WalkStep::Stat("x".to_string()), false));
    assert!(keeps_clean(&WalkStep::Descend, true));
    assert!(!keeps_clean(&WalkStep::Descend, false));
    assert!(!keeps_clean(&WalkStep::StatEach, true));
}
