use kachina::ui_session::{
    CdkStatus, Coded, Intent, Mode, PathState, PathWritable, Phase, Prompt, Renderer, SessionResult,
    SourceItem, UiSession, UiState, MIRRORC_CDK_MISSING,
};

fn session_with_sources(sources: Vec<SourceItem>) -> UiSession {
    let mut state = UiState::default();
    state.sources = sources;
    UiSession::new(state)
}

fn src(id: &str, uri: &str, webview: bool) -> SourceItem {
    SourceItem { id: id.into(), name: id.to_uppercase(), uri: uri.into(), icon: None, requires_webview: webview }
}

#[test]
fn set_source_mirrorc_start_without_cdk_fails() {
    let mut sess = session_with_sources(vec![
        SourceItem {
            id: "http".into(),
            name: "HTTP".into(),
            uri: "https://example.com/app.json".into(),
            icon: None,
            requires_webview: false,
        },
        SourceItem {
            id: "mirrorc".into(),
            name: "Mirrorc".into(),
            uri: "mirrorc://rid/1".into(),
            icon: None,
            requires_webview: false,
        },
    ]);
    sess.state.cdk = CdkStatus::Valid;
    sess.apply(Intent::SetSource { uri: "mirrorc://rid/1".into() });
    assert_eq!(sess.state.cdk, CdkStatus::Idle);
    assert!(
        sess.state.sources.iter().any(|s| s.uri.starts_with("mirrorc://")),
        "mirrorc source must stay visible"
    );

    sess.apply(Intent::Start);
    match &sess.state.phase {
        Phase::Failed(c) => assert_eq!(c.code, MIRRORC_CDK_MISSING),
        other => panic!("expected Failed(MIRRORC_CDK_MISSING), got {other:?}"),
    }
}

#[test]
fn answer_occupied_files_no_cancels_session() {
    let mut sess = UiSession::new(UiState::default());
    sess.state.pending = Some(Prompt {
        id: "p1".into(),
        kind: "occupied_files".into(),
        items: vec!["a.dll".into()],
        params: Vec::new(),
    });
    sess.apply(Intent::Answer { id: "p1".into(), ok: false });
    match &sess.state.phase {
        Phase::Done(r) => {
            assert!(r.cancelled);
            assert!(!r.already_latest);
            assert!(!r.is_update);
            assert!(!r.is_uninstall);
        }
        other => panic!("expected Done(cancelled), got {other:?}"),
    }
    assert!(sess.state.pending.is_none());
}

#[test]
fn dismiss_failed_preserves_options() {
    let mut sess = UiSession::new(UiState::default());
    sess.apply(Intent::SetCreateLnk { value: false });
    sess.apply(Intent::SetDeleteUserData { value: true });
    sess.apply(Intent::SetSource { uri: "https://example.com/app.json".into() });
    let before = sess.state.options.clone();
    sess.state.phase = Phase::Failed(Coded::bare(MIRRORC_CDK_MISSING));
    sess.apply(Intent::Dismiss);
    assert!(matches!(sess.state.phase, Phase::Ready));
    assert_eq!(sess.state.options, before);
}

#[test]
fn set_path_probe_mode_and_elevate() {
    let mut sess = UiSession::new(UiState::default());
    assert!(sess.apply(Intent::SetPath { path: "D:\\Games\\App".into() }));
    assert_eq!(sess.state.options.install_path, "D:\\Games\\App");
    sess.path_probed(PathState { writable: PathWritable::Writable, exists: true, upgrade: false }, true);
    assert!(!sess.state.needs_elevate);
    assert_eq!(sess.state.mode, Mode::Install);
    sess.path_probed(PathState { writable: PathWritable::Writable, exists: true, upgrade: true }, true);
    assert_eq!(sess.state.mode, Mode::Update);
    assert!(!sess.state.needs_elevate, "no strategy: a writable dir needs no elevation");
    sess.path_probed(PathState { writable: PathWritable::Unwritable, exists: true, upgrade: true }, false);
    assert!(sess.state.needs_elevate);
    assert_eq!(sess.state.mode, Mode::Update);
    sess.path_probed(PathState { writable: PathWritable::Private, exists: true, upgrade: false }, false);
    assert!(sess.state.needs_elevate);
}

#[test]
fn strategy_decides_elevation() {
    let mut sess = UiSession::with_project(UiState::default(), Renderer::Native, "app.exe".into(), "App".into(), "auto".into());
    assert_eq!(sess.exe_name(), "app.exe");
    sess.path_probed(PathState { writable: PathWritable::Unwritable, exists: true, upgrade: false }, false);
    assert!(!sess.state.needs_elevate);
    sess.path_probed(PathState { writable: PathWritable::Writable, exists: true, upgrade: false }, true);
    assert!(sess.state.needs_elevate);
}

#[test]
fn uninstall_mode_survives_probe() {
    let mut state = UiState::default();
    state.mode = Mode::Uninstall;
    let mut sess = UiSession::new(state);
    sess.path_probed(PathState { writable: PathWritable::Writable, exists: true, upgrade: true }, false);
    assert_eq!(sess.state.mode, Mode::Uninstall);
}

#[test]
fn native_renderer_hides_webview_sources() {
    let sources = vec![src("a", "https://a", false), src("b", "plugin://b", true), src("c", "mirrorc://c", false)];
    let sess = session_with_sources(sources.clone());
    let ids: Vec<&str> = sess.state.sources.iter().map(|s| s.id.as_str()).collect();
    assert_eq!(ids, vec!["a", "c"]);
    let mut state = UiState::default();
    state.sources = sources;
    let sess = UiSession::with_renderer(state, Renderer::WebView);
    assert_eq!(sess.state.sources.len(), 3);
}

#[test]
fn cdk_and_answers() {
    let mut sess = UiSession::new(UiState::default());
    sess.apply(Intent::SetCdk { cdk: String::new() });
    assert_eq!(sess.state.options.mirrorc_cdk, None);
    sess.apply(Intent::SetCdk { cdk: "KEY".into() });
    assert_eq!(sess.state.options.mirrorc_cdk.as_deref(), Some("KEY"));
    // a valid CDK lets a mirrorc source start
    sess.apply(Intent::SetSource { uri: "mirrorc://x".into() });
    sess.state.cdk = CdkStatus::Valid;
    sess.apply(Intent::Start);
    assert!(matches!(sess.state.phase, Phase::Ready));
    // answering yes, or another prompt, only clears it
    sess.state.pending = Some(Prompt { id: "p".into(), kind: "occupied_files".into(), items: vec![], params: vec![] });
    sess.apply(Intent::Answer { id: "p".into(), ok: true });
    assert!(sess.state.pending.is_none());
    assert!(matches!(sess.state.phase, Phase::Ready));
    sess.state.mode = Mode::Update;
    sess.state.pending = Some(Prompt { id: "q".into(), kind: "occupied_files".into(), items: vec![], params: vec![] });
    sess.apply(Intent::Answer { id: "q".into(), ok: false });
    assert_eq!(sess.state.phase, Phase::Done(SessionResult::cancelled(true)));
    // dismiss does nothing outside a failure
    sess.apply(Intent::Dismiss);
    assert!(matches!(sess.state.phase, Phase::Done(_)));
    assert_eq!(SessionResult::install(true, false), SessionResult { cancelled: false, already_latest: true, is_update: false, is_uninstall: false });
}
