use kachina::prompts::{failed_answer, plugin_result, PendingIds, PluginAnswer, PluginResult, SilentUi, PLUGIN_FAILED};

fn reply(ok: bool, data: Option<&str>, unimplemented: bool) -> PluginAnswer {
    PluginAnswer { id: "x".into(), ok, data: data.map(|d| d.into()), error: None, unimplemented }
}

#[test]
fn plugin_replies() {
    assert_eq!(plugin_result(reply(true, Some("{\"a\":1}"), false)), Ok(PluginResult::Value("{\"a\":1}".into())));
    assert_eq!(plugin_result(reply(true, None, false)), Ok(PluginResult::Value("null".into())));
    assert_eq!(plugin_result(reply(false, Some("x"), true)), Ok(PluginResult::Unimplemented));
    match plugin_result(reply(false, None, false)) {
        Err(c) => assert_eq!(c.code, PLUGIN_FAILED),
        other => panic!("expected failure, got {other:?}"),
    }
    let f = failed_answer();
    assert!(!f.ok && !f.unimplemented && f.data.is_none() && f.id.is_empty());
    assert!(SilentUi.confirm());
}

#[test]
fn answer_before_wait_is_taken_once() {
    let mut p = PendingIds::new();
    assert!(!p.answer("p1"));
    p.register("p1".into());
    p.register("p2".into());
    p.register("p1".into());
    assert!(p.answer("p1"));
    assert!(!p.answer("p1"));
    assert!(p.answer("p2"));
    assert!(!p.answer("p2"));
}
