use kachina::ipc::{
    default_as_false, encode_frame, frame_len, get_chunk_position, get_chunk_size, hash_failure_code,
    multichunk_plan, needs_index_clear, should_decompress_chunk, transfer_mode, ChunkStep, InstallFileArgs,
    InstallFileMode, InstallFileSource, InstallResult, IpcResult, MultichunkResult, MAX_FRAME,
};
use kachina::network::InsightItem;

fn url_src(offset: usize, size: usize, skip: bool) -> InstallFileSource {
    InstallFileSource::Url { url: "https://x.example/d".into(), offset, size, skip_decompress: skip, request_range: None }
}

fn direct(offset: usize, size: usize) -> InstallFileArgs {
    InstallFileArgs { mode: InstallFileMode::Direct(url_src(offset, size, false)), target: "t".into(), md5: None, xxh: None, clear_installer_index_mark: None }
}

fn insight() -> InsightItem {
    InsightItem { url: "https://x.example/f".into(), ttfb: 12, time: 34, size: 56, range: vec![(0, 99)], error: None, mode: Some("direct".into()) }
}

#[test]
fn chunk_fields_follow_mode() {
    let a = direct(10, 20);
    assert_eq!(get_chunk_position(&a), 10);
    assert_eq!(get_chunk_size(&a), 20);
    assert!(should_decompress_chunk(&a));
    let p = InstallFileArgs {
        mode: InstallFileMode::Patch { source: InstallFileSource::Local { offset: 5, size: 100, skip_decompress: true }, diff_size: 7 },
        ..direct(0, 0)
    };
    assert_eq!(get_chunk_position(&p), 5);
    assert_eq!(get_chunk_size(&p), 7);
    assert!(!should_decompress_chunk(&p));
    let h = InstallFileArgs {
        mode: InstallFileMode::HybridPatch { diff: url_src(40, 8, true), source: InstallFileSource::Local { offset: 1, size: 2, skip_decompress: false } },
        ..direct(0, 0)
    };
    assert_eq!(get_chunk_position(&h), 40);
    assert_eq!(get_chunk_size(&h), 8);
    assert!(!should_decompress_chunk(&h));
    assert!(!default_as_false());
}

#[test]
fn transfer_modes() {
    assert_eq!(transfer_mode(&direct(0, 1).mode), Some("direct"));
    assert_eq!(transfer_mode(&InstallFileMode::Direct(InstallFileSource::Local { offset: 0, size: 1, skip_decompress: false })), None);
    assert_eq!(transfer_mode(&InstallFileMode::Patch { source: url_src(0, 1, false), diff_size: 1 }), Some("patch"));
    assert_eq!(transfer_mode(&InstallFileMode::HybridPatch { diff: url_src(0, 1, false), source: url_src(0, 1, false) }), Some("hybridpatch"));
}

#[test]
fn index_clear_and_hash_codes() {
    let mut a = direct(0, 1);
    assert!(!needs_index_clear(&a, true));
    a.md5 = Some("abc".into());
    assert!(!needs_index_clear(&a, false));
    assert!(needs_index_clear(&a, true));
    a.clear_installer_index_mark = Some(true);
    assert!(needs_index_clear(&a, false));
    a.clear_installer_index_mark = Some(false);
    assert!(!needs_index_clear(&a, false));
    assert_eq!(hash_failure_code("ERR_NETWORK_OTHER"), "HASH_MISMATCH_ERR");
    assert_eq!(hash_failure_code("ERR_TIMEOUT"), "ERR_TIMEOUT");
}

#[test]
fn result_insight() {
    assert_eq!(IpcResult::Ping.insight(), None);
    let r = IpcResult::InstallFile(InstallResult { bytes_transferred: 3, insight: Some(insight()) });
    assert_eq!(r.insight(), Some(insight()));
    let r = IpcResult::InstallFile(InstallResult { bytes_transferred: 3, insight: None });
    assert_eq!(r.insight(), None);
    let r = IpcResult::InstallMultichunkStream(MultichunkResult { results: vec![Ok(1)], insight: insight() });
    assert_eq!(r.insight(), Some(insight()));
}

#[test]
fn plan_sorts_stably_and_skips_gaps() {
    // given out of order, with a tie at 100 and an overlap
    let chunks = vec![direct(100, 10), direct(0, 50), direct(100, 5), direct(60, 45)];
    let steps = multichunk_plan(&chunks);
    assert_eq!(
        steps,
        vec![
            ChunkStep { index: 1, skip: 0, size: 50, decompress: true },
            ChunkStep { index: 3, skip: 10, size: 45, decompress: true },
            ChunkStep { index: 0, skip: 0, size: 10, decompress: true },
            ChunkStep { index: 2, skip: 0, size: 5, decompress: true },
        ]
    );
    assert!(multichunk_plan(&vec![]).is_empty());
    let steps = multichunk_plan(&vec![direct(7, 3)]);
    assert_eq!(steps, vec![ChunkStep { index: 0, skip: 7, size: 3, decompress: true }]);
}

#[test]
fn frames_roundtrip() {
    let f = encode_frame(b"hello").unwrap();
    assert_eq!(f, vec![5, 0, 0, 0, b'h', b'e', b'l', b'l', b'o']);
    assert_eq!(frame_len([f[0], f[1], f[2], f[3]]), Ok(5));
    let big = vec![0u8; 300];
    let f = encode_frame(&big).unwrap();
    assert_eq!(&f[..4], &[44, 1, 0, 0]);
    assert_eq!(frame_len([f[0], f[1], f[2], f[3]]), Ok(300));
    assert_eq!(frame_len([0, 0, 0, 4]), Ok(MAX_FRAME));
    assert_eq!(frame_len([1, 0, 0, 4]), Err("ipc frame too large".to_string()));
    assert_eq!(frame_len([255, 255, 255, 255]), Err("ipc frame too large".to_string()));
    assert_eq!(encode_frame(&[]).unwrap(), vec![0, 0, 0, 0]);
}
