use kachina::network::{
    insight_range_vec, parse_range_string, ClassifiedNetworkError, NetworkErrorType, NetworkInsightStream,
};

#[test]
fn parse_range_keeps_open_end() {
    assert_eq!(parse_range_string("0-"), vec![(0, u32::MAX)]);
    assert_eq!(parse_range_string("100-200"), vec![(100, 200)]);
    assert_eq!(insight_range_vec(Some("10-14"), 0, 5), vec![(10, 14)]);
    assert_eq!(insight_range_vec(None, 10, 5), vec![(10, 14)]);
    assert_eq!(insight_range_vec(Some("0-"), 0, 0), vec![]);
    assert_eq!(insight_range_vec(None, 0, 0), vec![]);
}

#[test]
fn range_list_skips_unreadable_parts() {
    assert_eq!(parse_range_string(" 1-2 , x-3, 4-, +5-6,7"), vec![(1, 2), (4, u32::MAX), (5, 6)]);
    assert_eq!(parse_range_string("4294967296-1"), vec![]);
    assert_eq!(insight_range_vec(Some("junk"), 3, 2), vec![(3, 4)]);
}

#[test]
fn classify_error_by_message() {
    assert_eq!(ClassifiedNetworkError::classify_error("Connection Reset by peer"), NetworkErrorType::ConnectionReset);
    assert_eq!(ClassifiedNetworkError::classify_error("DOWNLOAD_STALLED"), NetworkErrorType::DownloadStalled);
    assert_eq!(ClassifiedNetworkError::classify_error("connect timed out"), NetworkErrorType::ConnectionTimeout);
    assert_eq!(ClassifiedNetworkError::classify_error("operation timed out"), NetworkErrorType::RequestTimeout);
    assert_eq!(ClassifiedNetworkError::classify_error("dns error"), NetworkErrorType::DnsResolutionFailed);
    assert_eq!(ClassifiedNetworkError::classify_error("invalid HTTP version"), NetworkErrorType::HttpProtocolError);
    assert_eq!(
        ClassifiedNetworkError::classify_error("error decoding response body"),
        NetworkErrorType::ResponseBodyError
    );
    assert_eq!(
        ClassifiedNetworkError::classify_error("Disk Full"),
        NetworkErrorType::Other("Disk Full".to_string())
    );
}

#[test]
fn classified_error_carries_its_code() {
    let e = ClassifiedNetworkError::new(NetworkErrorType::TlsHandshakeError, "x".into(), "u".into(), vec![(1, 2)]);
    assert_eq!(e.context, "ERR_TLS_HANDSHAKE_ERROR");
    let e = ClassifiedNetworkError::new(NetworkErrorType::Other("y".into()), "y".into(), "u".into(), vec![]);
    assert_eq!(e.context, "ERR_NETWORK_OTHER");
}

#[test]
fn stall_is_detected_after_five_quiet_seconds() {
    let mut s = NetworkInsightStream::new((), "https://h/f".to_string(), vec![(0, 9)], 12, 1_000);
    assert!(s.record_bytes(100, 50, 2_000).is_ok());
    let err = s.record_bytes(100, 60, 6_000).unwrap_err();
    assert_eq!(err.error_type, NetworkErrorType::DownloadStalled);
    assert_eq!(err.context, "ERR_DOWNLOAD_STALLED");
    assert_eq!(err.original_error, "DOWNLOAD_STALLED");
    let snap = s.get_insight_snapshot();
    assert_eq!(snap.size, 200);
    assert_eq!(snap.ttfb, 12);
    assert_eq!(snap.range, vec![(0, 9)]);
}

#[test]
fn steady_progress_moves_the_stall_window() {
    let mut s = NetworkInsightStream::new((), "u".to_string(), vec![], 0, 0);
    assert!(s.record_bytes(10_000, 1, 5_000).is_ok());
    assert_eq!(s.health.last_stall_check_ms, 5_000);
    assert_eq!(s.health.last_stall_check_bytes, 10_000);
}

#[test]
fn slow_large_download_is_detected_after_thirty_seconds() {
    let total = 100 * 1024 * 1024;
    let mut s = NetworkInsightStream::new_with_detection((), "u".to_string(), vec![], 0, 0, Some(total));
    // starts the slow window
    assert!(s.record_bytes(1_000_000, 1, 1_000).is_ok());
    assert_eq!(s.health.slow_detection_start_ms, Some(1_000));
    let mut now = 1_000;
    let mut result = Ok(());
    while now < 31_000 {
        now += 4_000;
        result = s.record_bytes(10 * 1024, 1, now);
        if result.is_err() {
            break;
        }
    }
    assert_eq!(result.unwrap_err().error_type, NetworkErrorType::DownloadTooSlow);
}

#[test]
fn mark_error_records_code_and_size() {
    let mut s = NetworkInsightStream::new((), "u".to_string(), vec![], 0, 0);
    assert!(s.record_bytes(7, 1, 1).is_ok());
    s.mark_error("ERR_X".to_string(), 99);
    let snap = s.get_insight_snapshot();
    assert_eq!(snap.error.as_deref(), Some("ERR_X"));
    assert_eq!(snap.time, 99);
    assert_eq!(snap.size, 7);
}
