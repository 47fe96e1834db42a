use kachina::cli::InstallArgs;
use kachina::native::{
    cdk_answer, cdk_needs_lookup, finish_page, goes_to_web, mirrorc_target, non_interactive_outcome, path_picked,
    prepare_ready, ready_gate, session_outcome, state_to_input, take_result, visible_sources, web_args, Gate,
    LinkKind, NativeOutcome, PageStep, ReadyAction, ReadyButton, ReadyState, SourceChoice,
};
use kachina::ui_session::SessionResult;

fn src(id: &str, uri: &str, hidden: bool, needs_plugin: bool) -> SourceChoice {
    SourceChoice { id: id.into(), name: id.to_uppercase(), uri: uri.into(), hidden, needs_plugin }
}

fn state(uninstall: bool, update: bool) -> ReadyState {
    ReadyState {
        path: "D:\\App".into(),
        source_uri: "https://a".into(),
        create_lnk: true,
        delete_user_data: false,
        mirrorc_cdk: None,
        is_update: update,
        is_uninstall: uninstall,
    }
}

#[test]
fn offered_sources() {
    let all = vec![src("a", "https://a", false, false), src("h", "https://h", true, false), src("p", "plugin://p", false, true)];
    let ids = |v: Vec<SourceChoice>| v.into_iter().map(|s| s.id).collect::<Vec<_>>();
    assert_eq!(ids(visible_sources(&all, "https://a")), vec!["a"]);
    assert_eq!(ids(visible_sources(&all, "https://h")), vec!["a", "h"]);
    assert_eq!(ids(visible_sources(&all, "plugin://p")), vec!["a"]);
}

#[test]
fn ready_page_install() {
    let all = vec![src("a", "https://a", false, false), src("b", "https://b", false, false)];
    let mut st = state(false, false);
    st.source_uri = "gone://x".into();
    let (shown, page) = prepare_ready("Win", "Title", "Desc", &mut st, &all);
    assert_eq!(shown.len(), 2);
    assert_eq!(st.source_uri, "https://a");
    assert_eq!(page.default_radio, Some(0));
    assert_eq!(page.content, "Desc\n\n安装到 D:\\App");
    let kinds: Vec<LinkKind> = page.links.iter().map(|l| l.kind).collect();
    assert_eq!(kinds, vec![LinkKind::Install, LinkKind::ChangePath, LinkKind::Advanced]);
    assert_eq!(page.links[0].text, "安装\n使用当前选项继续");
    assert_eq!(page.radios, vec!["A".to_string(), "B".to_string()]);
    assert_eq!(page.verification.as_deref(), Some("创建桌面快捷方式"));
    assert!(page.verification_checked);
    let step = take_result(&mut st, &shown, ReadyButton::Install, Some(1), false);
    assert_eq!(step, PageStep::Act(ReadyAction::Install));
    assert_eq!(st.source_uri, "https://b");
    assert!(!st.create_lnk);
}

#[test]
fn ready_page_uninstall_and_update() {
    let mut st = state(true, false);
    let (_, page) = prepare_ready("Win", "T", "", &mut st, &vec![]);
    assert_eq!(page.content, "卸载自 D:\\App");
    assert_eq!(page.links.len(), 2);
    assert_eq!(page.links[0].text, "卸载");
    assert_eq!(page.verification.as_deref(), Some("同时删除用户数据"));
    assert_eq!(page.default_radio, None);
    assert_eq!(take_result(&mut st, &vec![], ReadyButton::Install, None, true), PageStep::Act(ReadyAction::Uninstall));
    assert!(st.delete_user_data);
    let mut st = state(false, true);
    let (_, page) = prepare_ready("Win", "T", "", &mut st, &vec![]);
    assert_eq!(page.content, "更新到 D:\\App");
    assert_eq!(page.links[0].text, "更新\n使用当前选项继续");
    assert_eq!(page.verification, None);
    assert_eq!(take_result(&mut st, &vec![], ReadyButton::Dismissed, None, false), PageStep::Close);
    assert!(st.create_lnk, "an update keeps the shortcut choice");
    assert_eq!(take_result(&mut st, &vec![], ReadyButton::ChangePath, None, false), PageStep::ChangePath);
    assert_eq!(take_result(&mut st, &vec![], ReadyButton::Advanced, None, false), PageStep::Act(ReadyAction::Advanced));
    path_picked(&mut st, "E:\\New".into(), Some(false));
    assert_eq!(st.path, "E:\\New");
    assert!(!st.is_update);
    path_picked(&mut st, "F:\\X".into(), None);
    assert!(!st.is_update);
}

#[test]
fn gates_and_cdk() {
    let mut st = state(false, false);
    assert_eq!(ready_gate(ReadyAction::Install, false, true, &st), Gate::NeedsWebView);
    assert_eq!(ready_gate(ReadyAction::Advanced, false, true, &st), Gate::Proceed);
    assert_eq!(ready_gate(ReadyAction::Install, true, true, &st), Gate::Proceed);
    st.source_uri = "mirrorc://rid".into();
    assert_eq!(ready_gate(ReadyAction::Install, false, false, &st), Gate::NeedsCdk);
    assert_eq!(ready_gate(ReadyAction::Uninstall, false, false, &st), Gate::Proceed);
    assert!(cdk_needs_lookup(&st));
    assert!(!cdk_answer(&mut st, None));
    assert!(cdk_answer(&mut st, Some("KEY".into())));
    assert_eq!(st.mirrorc_cdk.as_deref(), Some("KEY"));
    assert!(!cdk_needs_lookup(&st));
    assert_eq!(ready_gate(ReadyAction::Install, false, false, &st), Gate::Proceed);
    assert!(cdk_answer(&mut st, None));
    assert!(!cdk_answer(&mut st, Some(String::new())));
    assert_eq!(st.mirrorc_cdk, None);
    assert_eq!(mirrorc_target("App"), "KachinaInstaller_MirrorChyanCDK_App");
}

#[test]
fn web_switch() {
    assert!(goes_to_web(ReadyAction::Install, true));
    assert!(goes_to_web(ReadyAction::Advanced, false));
    assert!(!goes_to_web(ReadyAction::Uninstall, false));
    let mut st = state(false, false);
    st.source_uri = "https://b".into();
    st.mirrorc_cdk = Some("K".into());
    let input = state_to_input(&st);
    assert_eq!(input.install_path, "D:\\App");
    let all = vec![src("a", "https://a", false, false), src("b", "https://b", true, false)];
    let mut args = InstallArgs::default();
    args.silent = true;
    let a = web_args(args.clone(), &input, ReadyAction::Install, &all);
    assert_eq!(a.target.as_deref(), Some("D:\\App"));
    assert_eq!(a.source.as_deref(), Some("b"));
    assert_eq!(a.mirrorc_cdk.as_deref(), Some("K"));
    assert!(a.non_interactive && !a.uninstall && a.silent);
    let a = web_args(args, &input, ReadyAction::Advanced, &vec![]);
    assert_eq!(a.source, None);
    assert!(!a.non_interactive);
}

#[test]
fn outcomes() {
    assert_eq!(session_outcome(&Ok(SessionResult::cancelled(false))), NativeOutcome::Again { reopen_source: false });
    assert_eq!(session_outcome(&Ok(SessionResult::install(false, false))), NativeOutcome::Exit);
    assert_eq!(session_outcome(&Err(Some("MIRRORC_CDK_EXPIRED".into()))), NativeOutcome::Again { reopen_source: true });
    assert_eq!(session_outcome(&Err(Some("FILE_IO_FAILED".into()))), NativeOutcome::Again { reopen_source: false });
    assert_eq!(session_outcome(&Err(None)), NativeOutcome::Again { reopen_source: false });
    assert_eq!(non_interactive_outcome(NativeOutcome::Again { reopen_source: true }), NativeOutcome::Exit);
    assert_eq!(non_interactive_outcome(NativeOutcome::Exit), NativeOutcome::Exit);
}

#[test]
fn finish_pages() {
    assert!(finish_page("W", &SessionResult::cancelled(true)).is_none());
    let p = finish_page("W", &SessionResult::install(true, true)).unwrap();
    assert_eq!(p.instruction, "您已安装最新版本");
    assert_eq!(p.links.len(), 2);
    assert_eq!(p.links[0].kind, LinkKind::Launch);
    let p = finish_page("W", &SessionResult { cancelled: false, already_latest: false, is_update: false, is_uninstall: true }).unwrap();
    assert_eq!(p.instruction, "卸载成功");
    assert_eq!(p.links.len(), 1);
    assert_eq!(finish_page("W", &SessionResult::install(false, true)).unwrap().instruction, "更新完成");
    assert_eq!(finish_page("W", &SessionResult::install(false, false)).unwrap().instruction, "安装完成");
}
