//! The commands the UI sends to the host, and which of them a plugin
//! runtime may use. The host runs the command a name stands for; this
//! module decides what the name stands for and whether it may run.

use vstd::prelude::*;
use vstd::string::StringExecFns;
use crate::text::{
    ascii_down, ascii_lower, chars_eq, chars_of, has_prefix, starts_with_chars, trim_end_ws, trim_end_ws_exec,
    trim_start_ws, trim_start_ws_exec,
};

verus! {

/// A command of the UI bridge.
#[derive(Clone, Copy, Debug, PartialEq, Eq, Structural)]
pub enum BridgeCommand {
    PluginHostReady,
    Intent,
    PickPath,
    ErrorDialog,
    TaskDialog,
    AnswerSessionPlugin,
    HttpGetRequest,
    Launch,
    LaunchAndExit,
    Log,
    Warn,
    LogError,
    WindowShow,
    WindowClose,
    WindowMinimize,
    WindowSetTitle,
    WindowSetDecorations,
}

/// The command a name stands for.
pub open spec fn command_of(name: Seq<char>) -> Option<BridgeCommand> {
    if name == "plugin_host_ready"@ {
        Some(BridgeCommand::PluginHostReady)
    } else if name == "intent"@ {
        Some(BridgeCommand::Intent)
    } else if name == "pick_path"@ {
        Some(BridgeCommand::PickPath)
    } else if name == "error_dialog"@ {
        Some(BridgeCommand::ErrorDialog)
    } else if name == "task_dialog"@ {
        Some(BridgeCommand::TaskDialog)
    } else if name == "answer_session_plugin"@ {
        Some(BridgeCommand::AnswerSessionPlugin)
    } else if name == "http_get_request"@ {
        Some(BridgeCommand::HttpGetRequest)
    } else if name == "launch"@ {
        Some(BridgeCommand::Launch)
    } else if name == "launch_and_exit"@ {
        Some(BridgeCommand::LaunchAndExit)
    } else if name == "log"@ {
        Some(BridgeCommand::Log)
    } else if name == "warn"@ {
        Some(BridgeCommand::Warn)
    } else if name == "error"@ {
        Some(BridgeCommand::LogError)
    } else if name == "window_show"@ {
        Some(BridgeCommand::WindowShow)
    } else if name == "window_close"@ {
        Some(BridgeCommand::WindowClose)
    } else if name == "window_minimize"@ {
        Some(BridgeCommand::WindowMinimize)
    } else if name == "window_set_title"@ {
        Some(BridgeCommand::WindowSetTitle)
    } else if name == "window_set_decorations"@ {
        Some(BridgeCommand::WindowSetDecorations)
    } else {
        None
    }
}

/// The names a plugin runtime may send.
pub open spec fn plugin_allowed(name: Seq<char>) -> bool {
    name == "plugin_host_ready"@ || name == "answer_session_plugin"@ || name == "http_get_request"@
        || name == "log"@ || name == "warn"@ || name == "error"@ || name == "launch"@
}

/// What the bridge answers a name with: its command, or the refusal's
/// message. In a plugin runtime only the allowed names get through.
pub open spec fn gate_spec(plugin_runtime: bool, name: Seq<char>) -> Result<BridgeCommand, Seq<char>> {
    if plugin_runtime && !plugin_allowed(name) {
        Err("command disabled in plugin runtime: "@ + name)
    } else {
        match command_of(name) {
            Some(c) => Ok(c),
            None => Err("unknown command: "@ + name),
        }
    }
}

fn is(a: &str, b: &str) -> (r: bool)
    ensures
        r == (a@ == b@),
{
    chars_eq(&chars_of(a), &chars_of(b))
}

fn command_exec(name: &str) -> (r: Option<BridgeCommand>)
    ensures
        r == command_of(name@),
{
    if is(name, "plugin_host_ready") {
        Some(BridgeCommand::PluginHostReady)
    } else if is(name, "intent") {
        Some(BridgeCommand::Intent)
    } else if is(name, "pick_path") {
        Some(BridgeCommand::PickPath)
    } else if is(name, "error_dialog") {
        Some(BridgeCommand::ErrorDialog)
    } else if is(name, "task_dialog") {
        Some(BridgeCommand::TaskDialog)
    } else if is(name, "answer_session_plugin") {
        Some(BridgeCommand::AnswerSessionPlugin)
    } else if is(name, "http_get_request") {
        Some(BridgeCommand::HttpGetRequest)
    } else if is(name, "launch") {
        Some(BridgeCommand::Launch)
    } else if is(name, "launch_and_exit") {
        Some(BridgeCommand::LaunchAndExit)
    } else if is(name, "log") {
        Some(BridgeCommand::Log)
    } else if is(name, "warn") {
        Some(BridgeCommand::Warn)
    } else if is(name, "error") {
        Some(BridgeCommand::LogError)
    } else if is(name, "window_show") {
        Some(BridgeCommand::WindowShow)
    } else if is(name, "window_close") {
        Some(BridgeCommand::WindowClose)
    } else if is(name, "window_minimize") {
        Some(BridgeCommand::WindowMinimize)
    } else if is(name, "window_set_title") {
        Some(BridgeCommand::WindowSetTitle)
    } else if is(name, "window_set_decorations") {
        Some(BridgeCommand::WindowSetDecorations)
    } else {
        None
    }
}

/// The command a name stands for, if the bridge lets it run.
pub fn gate(plugin_runtime: bool, name: &str) -> (r: Result<BridgeCommand, String>)
    ensures
        match (r, gate_spec(plugin_runtime, name@)) {
            (Ok(c), Ok(d)) => c == d,
            (Err(m), Err(n)) => m@ == n,
            _ => false,
        },
{
    let allowed = is(name, "plugin_host_ready") || is(name, "answer_session_plugin") || is(
        name,
        "http_get_request",
    ) || is(name, "log") || is(name, "warn") || is(name, "error") || is(name, "launch");
    if plugin_runtime && !allowed {
        let mut m = String::from_str("command disabled in plugin runtime: ");
        m.append(name);
        return Err(m);
    }
    match command_exec(name) {
        Some(c) => Ok(c),
        None => {
            let mut m = String::from_str("unknown command: ");
            m.append(name);
            Err(m)
        },
    }
}

/// Whether a path is an http(s) URL: after trimming whitespace, it
/// starts with `http://` or `https://`, in any ASCII case.
pub open spec fn http_url_spec(path: Seq<char>) -> bool {
    let lower = trim_end_ws(trim_start_ws(path)).map_values(|c: char| ascii_down(c));
    has_prefix(lower, "http://"@) || has_prefix(lower, "https://"@)
}

/// Whether a path is an http(s) URL.
pub fn is_http_or_https_url(path: &str) -> (r: bool)
    ensures
        r == http_url_spec(path@),
{
    let cs = chars_of(path);
    let trimmed = trim_end_ws_exec(&trim_start_ws_exec(&cs));
    let lower = ascii_lower(&trimmed);
    starts_with_chars(&lower, &chars_of("http://")) || starts_with_chars(&lower, &chars_of("https://"))
}

/// What `launch` may open: in a plugin runtime, http(s) URLs only.
pub fn launch_allowed(plugin_runtime: bool, path: &str) -> (r: Result<(), String>)
    ensures
        r is Ok <==> (!plugin_runtime || http_url_spec(path@)),
        r matches Err(m) ==> m@ == "command disabled in plugin runtime: launch (only http(s) URLs allowed)"@,
{
    if plugin_runtime && !is_http_or_https_url(path) {
        return Err(String::from_str("command disabled in plugin runtime: launch (only http(s) URLs allowed)"));
    }
    Ok(())
}

/// A plugin may use a command only if plugins are allowed it, and the name means for a plugin what it means for the page.
pub proof fn lemma_plugin_gate_allows_only_listed(name: Seq<char>)
    requires
        gate_spec(true, name) is Ok,
    ensures
        plugin_allowed(name),
        gate_spec(true, name) == gate_spec(false, name),
{
}

} // verus!
