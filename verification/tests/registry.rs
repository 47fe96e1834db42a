use kachina::registry::{choose_meta, pick_hive, registry_values, uninstall_key, Hive, HiveMeta, RegValue, WriteRegistryParams};

#[test]
fn hive_choice() {
    assert_eq!(pick_hive(true, true, false), Hive::LocalMachine);
    assert_eq!(pick_hive(false, true, true), Hive::CurrentUser);
    assert_eq!(pick_hive(false, false, true), Hive::LocalMachine);
    assert_eq!(pick_hive(false, false, false), Hive::CurrentUser);
    assert_eq!(uninstall_key("App"), "SOFTWARE\\Microsoft\\Windows\\CurrentVersion\\Uninstall\\App");
}

#[test]
fn entry_values() {
    let p = WriteRegistryParams {
        reg_name: "App".into(),
        name: "My App".into(),
        version: "1.0".into(),
        exe: "C:\\A\\a.exe".into(),
        source: "C:\\A".into(),
        uninstaller: "C:\\A\\uninst.exe".into(),
        metadata: "{}".into(),
        size: (1u64 << 32) + 4096,
        publisher: "Me".into(),
    };
    let v = registry_values(&p);
    assert_eq!(v.len(), 10);
    assert_eq!(v[0], ("DisplayName".to_string(), RegValue::Text("My App".into())));
    assert_eq!(v[6], ("EstimatedSize".to_string(), RegValue::Number(4)));
    assert_eq!(v[7], ("NoModify".to_string(), RegValue::Number(1)));
    assert_eq!(v[9], ("InstallerMeta".to_string(), RegValue::Text("{}".into())));
}

#[test]
fn uninstall_meta_choice() {
    let m = |loc: &str| Some(HiveMeta { metadata: "{}".into(), location: loc.into() });
    let entries = vec![m("C:\\One"), m("D:\\Two\\")];
    assert_eq!(choose_meta(&entries, Some("d:\\two")), Some(1));
    assert_eq!(choose_meta(&entries, Some("C:/One/")), Some(0));
    assert_eq!(choose_meta(&entries, Some("E:\\x")), Some(0));
    assert_eq!(choose_meta(&entries, None), Some(0));
    assert_eq!(choose_meta(&vec![None, m("")], Some("")), Some(1));
    assert_eq!(choose_meta(&vec![None, None], None), None);
}
