use kachina::bridge::{gate, is_http_or_https_url, launch_allowed, BridgeCommand};

#[test]
fn gate_routes_known_commands() {
    assert_eq!(gate(false, "intent"), Ok(BridgeCommand::Intent));
    assert_eq!(gate(false, "window_set_title"), Ok(BridgeCommand::WindowSetTitle));
    assert_eq!(gate(false, "error"), Ok(BridgeCommand::LogError));
    assert_eq!(gate(false, "bogus"), Err("unknown command: bogus".to_string()));
}

#[test]
fn plugin_runtime_allowlist() {
    assert_eq!(gate(true, "http_get_request"), Ok(BridgeCommand::HttpGetRequest));
    assert_eq!(gate(true, "launch"), Ok(BridgeCommand::Launch));
    assert_eq!(gate(true, "intent"), Err("command disabled in plugin runtime: intent".to_string()));
    assert_eq!(gate(true, "bogus"), Err("command disabled in plugin runtime: bogus".to_string()));
}

#[test]
fn http_urls_only_in_plugin_runtime() {
    assert!(is_http_or_https_url("  HTTPS://example.com "));
    assert!(is_http_or_https_url("http://x"));
    assert!(!is_http_or_https_url("file:///C:/x"));
    assert!(!is_http_or_https_url("C:\\app.exe"));
    assert_eq!(launch_allowed(false, "C:\\app.exe"), Ok(()));
    assert_eq!(launch_allowed(true, "https://a.b"), Ok(()));
    assert_eq!(
        launch_allowed(true, "C:\\app.exe"),
        Err("command disabled in plugin runtime: launch (only http(s) URLs allowed)".to_string())
    );
}
