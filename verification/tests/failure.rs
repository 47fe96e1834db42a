use kachina::failure::{
    classify, file_release, friendly, hide_detail, kind_from_text, plugin_not_found, user, Cause,
    ErrorChain, FailKind, IoKind, DFS2_SESSION, META_FAILED,
};

#[test]
fn user_error_is_expected_and_display_clean() {
    let err = user(META_FAILED.to_string()).context("outer context");
    let c = classify(&err);
    assert!(!c.report);
    assert_eq!(c.kind, FailKind::Network);
    assert_eq!(err.alternate_text(), format!("outer context: {META_FAILED}"));
}

#[test]
fn hide_error_is_reported() {
    let err = hide_detail(DFS2_SESSION);
    let c = classify(&err);
    assert!(c.report);
    assert_eq!(c.kind, FailKind::Network);
}

#[test]
fn io_permission_denied_maps_to_permission() {
    let err = ErrorChain {
        causes: vec![Cause::Io { kind: IoKind::PermissionDenied, message: "permission denied".into() }],
    }
    .context("write file");
    let c = classify(&err);
    assert!(c.report);
    assert_eq!(c.kind, FailKind::Permission);
}

#[test]
fn io_disk_full_maps_to_disk() {
    let err = ErrorChain {
        causes: vec![Cause::Io { kind: IoKind::Other, message: "no storage space".into() }],
    };
    assert_eq!(classify(&err).kind, FailKind::Disk);
}

#[test]
fn hash_mismatch_context_maps_to_hash() {
    let err = ErrorChain::msg("File a hash mismatch").context("HASH_MISMATCH_ERR");
    assert_eq!(classify(&err).kind, FailKind::Hash);
}

#[test]
fn cancelled_text_maps_to_cancelled() {
    let err = ErrorChain::msg("merged fallback cancelled");
    assert_eq!(classify(&err).kind, FailKind::Cancelled);
}

#[test]
fn file_release_download_error_is_expected_network() {
    let err = file_release("a.dll", "error sending request: operation timed out");
    let c = classify(&err);
    assert!(!c.report);
    assert_eq!(c.kind, FailKind::Network);
}

#[test]
fn plain_error_maps_to_other_and_reports() {
    let err = ErrorChain::msg("ipc protocol violation");
    let c = classify(&err);
    assert!(c.report);
    assert_eq!(c.kind, FailKind::Other);
}

#[test]
fn fail_kind_names() {
    assert_eq!(FailKind::Network.as_str(), "network");
    assert_eq!(FailKind::Cancelled.as_str(), "cancelled");
    assert_eq!(FailKind::Other.as_str(), "other");
}

#[test]
fn expected_kind_wins_over_io_cause_below() {
    let err = kachina::failure::expected(FailKind::Hash, "bad".into());
    let mut causes = err.causes.clone();
    causes.push(Cause::Io { kind: IoKind::TimedOut, message: "t".into() });
    let c = classify(&ErrorChain { causes });
    assert_eq!(c.kind, FailKind::Hash);
    assert!(!c.report);
}

#[test]
fn request_error_is_network() {
    let err = ErrorChain { causes: vec![Cause::Request { message: "builder error".into() }] };
    assert_eq!(classify(&err).kind, FailKind::Network);
}

#[test]
fn text_kinds() {
    assert_eq!(kind_from_text("x (os error 5) y"), Some(FailKind::Permission));
    assert_eq!(kind_from_text("无法访问临时文件夹"), Some(FailKind::Disk));
    assert_eq!(kind_from_text("DOWNLOAD_STALLED"), Some(FailKind::Network));
    assert_eq!(kind_from_text("fine"), None);
}

#[test]
fn friendly_moves_the_url_after_a_hint() {
    let text = friendly("error sending request for url (https://dl.example/a.bin): connection refused");
    assert_eq!(
        text,
        "下载服务器出现问题，请重试或更换下载源\n\n原始错误：error sending request for url ([url]): connection refused\n\n下载服务器：https://dl.example/a.bin"
    );
    assert_eq!(friendly("plain"), "plain");
    assert_eq!(friendly("see http://x,y"), "see [url],y\n\n下载服务器：http://x");
    assert_eq!(
        friendly("operation timed out"),
        "连接下载服务器超时，请检查你的网络连接或更换下载源\n\n原始错误：operation timed out"
    );
}

#[test]
fn plugin_not_found_is_a_user_error() {
    let err = plugin_not_found("abc");
    assert_eq!(err.alternate_text(), "Plugin \"abc\" not found");
    let c = classify(&err);
    assert!(!c.report);
    assert_eq!(c.kind, FailKind::Other);
}

#[test]
fn file_release_wording() {
    let err = file_release("a.dll", "disk on fire");
    assert_eq!(err.alternate_text(), "释放文件 a.dll 失败：\ndisk on fire");
    assert_eq!(classify(&err).kind, FailKind::Other);
    let err = file_release("b.dll", "Connection closed");
    assert_eq!(classify(&err).kind, FailKind::Network);
}
