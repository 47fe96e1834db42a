use kachina::builder::{PatchInfo, PatchItem};
use kachina::bundle::Embedded;
use kachina::file_ops::{choose_strategy, diff_name, embedded_op, file_source, hybrid_op, url_op, FileLocation, HashKey, Strategy};
use kachina::ipc::{InstallFileMode, InstallFileSource};

fn emb(name: &str, offset: usize) -> Embedded {
    Embedded { name: name.into(), offset, raw_offset: offset - 10, size: 5 }
}

fn patch(from: Option<&str>, to: &str) -> PatchInfo {
    PatchInfo {
        file_name: "a.dll".into(),
        size: 7,
        from: PatchItem { size: 1, md5: None, xxh: from.map(|s| s.into()) },
        to: PatchItem { size: 2, md5: None, xxh: Some(to.into()) },
    }
}

#[test]
fn strategies_in_order() {
    let embedded = vec![emb("old1", 100), emb("new", 200)];
    let patches = vec![patch(Some("disk"), "new2"), patch(Some("old1"), "new2"), patch(None, "new3")];
    assert_eq!(choose_strategy("new", HashKey::Xxh, &embedded, &patches, None, false), Strategy::Embedded(1));
    assert_eq!(choose_strategy("new", HashKey::Xxh, &embedded, &patches, None, true), Strategy::Download);
    assert_eq!(choose_strategy("new2", HashKey::Xxh, &embedded, &patches, Some("disk"), false), Strategy::Hybrid { local: 0, patch: 1 });
    assert_eq!(choose_strategy("new2", HashKey::Xxh, &vec![], &patches, Some("disk"), false), Strategy::DiskPatch { patch: 0 });
    assert_eq!(choose_strategy("new2", HashKey::Xxh, &vec![], &patches, Some("other"), false), Strategy::Download);
    // a patch without a source hash fits a missing file, but has nothing to patch from
    assert_eq!(choose_strategy("new3", HashKey::Xxh, &vec![], &patches, None, false), Strategy::Download);
    // under md5 the patches name nothing
    assert_eq!(choose_strategy("new2", HashKey::Md5, &embedded, &patches, Some("disk"), false), Strategy::Download);
}

#[test]
fn ops() {
    let loc = FileLocation { url: Some("https://x/f".into()), offset: 1, size: 2, skip_decompress: true, request_range: None };
    let a = url_op(loc.clone(), "t".into(), None, Some("h".into()), Some(9), true);
    assert_eq!(a.mode, InstallFileMode::Patch { source: file_source(loc.clone()), diff_size: 9 });
    assert_eq!(a.clear_installer_index_mark, Some(true));
    let local = FileLocation { url: None, ..loc.clone() };
    assert_eq!(file_source(local), InstallFileSource::Local { offset: 1, size: 2, skip_decompress: true });
    let e = embedded_op(&emb("x", 50), "t".into(), None, None, false);
    assert_eq!(e.mode, InstallFileMode::Direct(InstallFileSource::Local { offset: 50, size: 5, skip_decompress: false }));
    let h = hybrid_op(&emb("x", 50), loc.clone(), "t".into(), None, None);
    assert_eq!(h.clear_installer_index_mark, None);
    assert_eq!(diff_name("a", "b"), "a_b");
}

#[test]
fn hash_algorithm_names() {
    assert_eq!(HashKey::Md5.algorithm(), "md5");
    assert_eq!(HashKey::Xxh.algorithm(), "xxh");
}
