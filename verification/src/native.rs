//! The native (dialog-based) install flow: the ready page with its
//! sources and options, what the user's answer on it does, the gates
//! before an install starts, the switch to the full web interface, and the
//! finish page. Showing the dialogs, probing directories and storing the
//! CDK are the host's work; it hands the answers back here.

use vstd::prelude::*;
use vstd::string::StringExecFns;
use crate::cli::InstallArgs;
use crate::text::{chars_eq, chars_of, has_prefix, starts_with_chars};
use crate::ui_session::SessionResult;

verus! {

/// What a session starts with.
#[derive(Clone, Debug, PartialEq, Eq)]
pub struct SessionInput {
    pub install_path: String,
    pub source_uri: String,
    pub create_lnk: bool,
    pub delete_user_data: bool,
    pub mirrorc_cdk: Option<String>,
}

/// How the native flow ends.
#[derive(Clone, Debug, PartialEq, Eq)]
pub enum NativeOutcome {
    Exit,
    /// Show the ready page again (asking for the CDK first if told so).
    Again { reopen_source: bool },
    /// Continue in the web interface with these options.
    Web { args: InstallArgs, preset: SessionInput },
}

/// The ready page's choices.
#[derive(Clone, Debug, PartialEq, Eq)]
pub struct ReadyState {
    pub path: String,
    pub source_uri: String,
    pub create_lnk: bool,
    pub delete_user_data: bool,
    pub mirrorc_cdk: Option<String>,
    pub is_update: bool,
    pub is_uninstall: bool,
}

/// What the user asked for on the ready page.
#[derive(Clone, Copy, Debug, PartialEq, Eq, Structural)]
pub enum ReadyAction {
    Install,
    Uninstall,
    Advanced,
}

/// A source of the project.
#[derive(Clone, Debug, PartialEq, Eq)]
pub struct SourceChoice {
    pub id: String,
    pub name: String,
    pub uri: String,
    pub hidden: bool,
    /// It needs a script plugin, which only the web interface runs.
    pub needs_plugin: bool,
}

/// A command link of a page.
#[derive(Clone, Copy, Debug, PartialEq, Eq, Structural)]
pub enum LinkKind {
    Install,
    ChangePath,
    Advanced,
    Launch,
    Close,
}

#[derive(Clone, Debug, PartialEq, Eq)]
pub struct PageLink {
    pub kind: LinkKind,
    pub text: String,
}

/// A page to show.
#[derive(Clone, Debug, PartialEq, Eq)]
pub struct ReadyPage {
    pub title: String,
    pub instruction: String,
    pub content: String,
    pub links: Vec<PageLink>,
    /// The sources to pick from, by name.
    pub radios: Vec<String>,
    pub default_radio: Option<usize>,
    /// The check box under the page.
    pub verification: Option<String>,
    pub verification_checked: bool,
}

/// The button the user pressed; `Dismissed` for closing the page.
#[derive(Clone, Copy, Debug, PartialEq, Eq, Structural)]
pub enum ReadyButton {
    Install,
    ChangePath,
    Advanced,
    Launch,
    Dismissed,
}

/// What follows an answer on the ready page.
#[derive(Clone, Copy, Debug, PartialEq, Eq, Structural)]
pub enum PageStep {
    Act(ReadyAction),
    /// Let the user pick a directory, then show the page again.
    ChangePath,
    Close,
}

/// What keeps an action from starting.
#[derive(Clone, Copy, Debug, PartialEq, Eq, Structural)]
pub enum Gate {
    Proceed,
    /// The source needs the web interface: tell the user to use it.
    NeedsWebView,
    /// A Mirrorc source needs a CDK first.
    NeedsCdk,
}

pub open spec fn shown_spec(all: Seq<SourceChoice>, current: Seq<char>) -> Seq<SourceChoice>
    decreases all.len(),
{
    if all.len() == 0 {
        Seq::empty()
    } else {
        let rest = shown_spec(all.drop_last(), current);
        let s = all.last();
        if (!s.hidden || s.uri@ == current) && !s.needs_plugin {
            rest.push(s)
        } else {
            rest
        }
    }
}

/// The first source with `uri`.
pub open spec fn index_of_uri(s: Seq<SourceChoice>, uri: Seq<char>) -> Option<int>
    decreases s.len(),
{
    if s.len() == 0 {
        None
    } else if s[0].uri@ == uri {
        Some(0)
    } else {
        match index_of_uri(s.skip(1), uri) {
            Some(i) => Some(i + 1),
            None => None,
        }
    }
}

/// The source the page starts on: the current one when it is shown, else
/// the first shown.
pub open spec fn fixed_uri(shown: Seq<SourceChoice>, current: Seq<char>) -> Seq<char> {
    if shown.len() > 0 && index_of_uri(shown, current) is None {
        shown[0].uri@
    } else {
        current
    }
}

pub open spec fn verb(s: ReadyState) -> Seq<char> {
    if s.is_uninstall {
        "卸载"@
    } else if s.is_update {
        "更新"@
    } else {
        "安装"@
    }
}

pub open spec fn destination(s: ReadyState) -> Seq<char> {
    if s.is_uninstall {
        "卸载自 "@ + s.path@
    } else if s.is_update {
        "更新到 "@ + s.path@
    } else {
        "安装到 "@ + s.path@
    }
}

pub open spec fn link_views(v: Seq<PageLink>) -> Seq<(LinkKind, Seq<char>)> {
    v.map_values(|l: PageLink| (l.kind, l.text@))
}

pub open spec fn ready_links(s: ReadyState) -> Seq<(LinkKind, Seq<char>)> {
    let install = if s.is_uninstall { "卸载"@ } else { verb(s) + "\n使用当前选项继续"@ };
    let first = seq![(LinkKind::Install, install)];
    let change = if s.is_uninstall { Seq::empty() } else { seq![(LinkKind::ChangePath, "更改安装位置"@)] };
    first + change + seq![(LinkKind::Advanced, "高级安装\n将安装 WebView2 并打开完整界面"@)]
}

pub open spec fn names(v: Seq<SourceChoice>) -> Seq<Seq<char>> {
    v.map_values(|s: SourceChoice| s.name@)
}

pub open spec fn text_views(v: Seq<String>) -> Seq<Seq<char>> {
    v.map_values(|s: String| s@)
}

pub open spec fn opt_text(o: Option<String>) -> Option<Seq<char>> {
    match o {
        Some(s) => Some(s@),
        None => None,
    }
}

/// The ready page for a state (whose source is already fixed).
pub open spec fn ready_page_spec(
    p: ReadyPage,
    window_title: Seq<char>,
    title: Seq<char>,
    description: Seq<char>,
    s: ReadyState,
    shown: Seq<SourceChoice>,
) -> bool {
    &&& p.title@ == window_title
    &&& p.instruction@ == title
    &&& p.content@ == (if description.len() > 0 { description + "\n\n"@ } else { description }) + destination(s)
    &&& link_views(p.links@) == ready_links(s)
    &&& text_views(p.radios@) == names(shown)
    &&& p.default_radio == match index_of_uri(shown, s.source_uri@) {
        Some(i) => Some(i as usize),
        None => None,
    }
    &&& opt_text(p.verification) == (if s.is_uninstall {
        Some("同时删除用户数据"@)
    } else if !s.is_update {
        Some("创建桌面快捷方式"@)
    } else {
        None
    })
    &&& p.verification_checked == (if s.is_uninstall { s.delete_user_data } else { s.create_lnk })
}

fn copy_opt(o: &Option<String>) -> (r: Option<String>)
    ensures
        r == *o,
{
    match o {
        Some(s) => Some(s.clone()),
        None => None,
    }
}

fn copy_source(s: &SourceChoice) -> (r: SourceChoice)
    ensures
        r == *s,
{
    SourceChoice {
        id: s.id.clone(),
        name: s.name.clone(),
        uri: s.uri.clone(),
        hidden: s.hidden,
        needs_plugin: s.needs_plugin,
    }
}

fn same(a: &str, b: &str) -> (r: bool)
    ensures
        r == (a@ == b@),
{
    chars_eq(&chars_of(a), &chars_of(b))
}

/// The sources the native page offers: not hidden (unless current), and
/// not needing a script plugin.
pub fn visible_sources(all: &Vec<SourceChoice>, current_uri: &str) -> (r: Vec<SourceChoice>)
    ensures
        r@ == shown_spec(all@, current_uri@),
{
    let mut out: Vec<SourceChoice> = Vec::new();
    let mut i: usize = 0;
    while i < all.len()
        invariant
            i <= all@.len(),
            out@ == shown_spec(all@.take(i as int), current_uri@),
        decreases all@.len() - i,
    {
        assert(all@.take(i + 1 as int).drop_last() =~= all@.take(i as int));
        assert(all@.take(i + 1 as int).last() == all@[i as int]);
        let s = &all[i];
        if (!s.hidden || same(s.uri.as_str(), current_uri)) && !s.needs_plugin {
            out.push(copy_source(s));
        }
        i += 1;
    }
    assert(all@.take(all@.len() as int) =~= all@);
    out
}

fn find_uri(v: &Vec<SourceChoice>, uri: &str) -> (r: Option<usize>)
    ensures
        match r {
            Some(i) => index_of_uri(v@, uri@) == Some(i as int) && i < v@.len(),
            None => index_of_uri(v@, uri@) is None,
        },
{
    let mut i: usize = 0;
    assert(v@.skip(0) =~= v@);
    while i < v.len()
        invariant
            i <= v@.len(),
            index_of_uri(v@, uri@) == match index_of_uri(v@.skip(i as int), uri@) {
                Some(k) => Some(k + i),
                None => None,
            },
        decreases v@.len() - i,
    {
        assert(v@.skip(i as int)[0] == v@[i as int]);
        assert(v@.skip(i as int).skip(1) =~= v@.skip(i + 1));
        if same(v[i].uri.as_str(), uri) {
            return Some(i);
        }
        i += 1;
    }
    None
}

/// Readies the page: shows the offered sources, moves to the first of them
/// when the current one is not offered, and lays out the page's texts,
/// links and check box.
pub fn prepare_ready(
    window_title: &str,
    title: &str,
    description: &str,
    state: &mut ReadyState,
    all: &Vec<SourceChoice>,
) -> (r: (Vec<SourceChoice>, ReadyPage))
    ensures
        r.0@ == shown_spec(all@, old(state).source_uri@),
        final(state).source_uri@ == fixed_uri(r.0@, old(state).source_uri@),
        *final(state) == (ReadyState { source_uri: final(state).source_uri, ..*old(state) }),
        ready_page_spec(r.1, window_title@, title@, description@, *final(state), r.0@),
{
    let shown = visible_sources(all, state.source_uri.as_str());
    if shown.len() > 0 {
        if find_uri(&shown, state.source_uri.as_str()).is_none() {
            state.source_uri = shown[0].uri.clone();
        }
    }
    let default_radio = find_uri(&shown, state.source_uri.as_str());
    let mut radios: Vec<String> = Vec::new();
    let mut i: usize = 0;
    while i < shown.len()
        invariant
            i <= shown@.len(),
            radios@.len() == i,
            text_views(radios@) == names(shown@.take(i as int)),
        decreases shown@.len() - i,
    {
        let ghost before = radios@;
        let nm = shown[i].name.clone();
        assert(nm@ == shown@[i as int].name@);
        radios.push(nm);
        proof {
            assert(radios@ == before.push(nm));
            assert forall|k: int| 0 <= k < i + 1 implies #[trigger] text_views(radios@)[k] == names(
                shown@.take(i + 1 as int),
            )[k] by {
                if k < i {
                    assert(text_views(before)[k] == names(shown@.take(i as int))[k]);
                }
            }
            assert(text_views(radios@) =~= names(shown@.take(i + 1 as int)));
        }
        i += 1;
    }
    assert(shown@.take(shown@.len() as int) =~= shown@);
    let dest_head = if state.is_uninstall {
        "卸载自 "
    } else if state.is_update {
        "更新到 "
    } else {
        "安装到 "
    };
    let mut content = String::from_str(description);
    if chars_of(description).len() > 0 {
        content.append("\n\n");
    }
    content.append(dest_head);
    content.append(state.path.as_str());
    assert(content@ =~= (if description@.len() > 0 { description@ + "\n\n"@ } else { description@ }) + destination(
        *state,
    ));
    let mut links: Vec<PageLink> = Vec::new();
    let install_text = if state.is_uninstall {
        String::from_str("卸载")
    } else {
        let mut t = if state.is_update {
            String::from_str("更新")
        } else {
            String::from_str("安装")
        };
        t.append("\n使用当前选项继续");
        t
    };
    links.push(PageLink { kind: LinkKind::Install, text: install_text });
    if !state.is_uninstall {
        links.push(PageLink { kind: LinkKind::ChangePath, text: String::from_str("更改安装位置") });
    }
    links.push(PageLink { kind: LinkKind::Advanced, text: String::from_str("高级安装\n将安装 WebView2 并打开完整界面") });
    assert(link_views(links@) =~= ready_links(*state));
    let verification = if state.is_uninstall {
        Some(String::from_str("同时删除用户数据"))
    } else if !state.is_update {
        Some(String::from_str("创建桌面快捷方式"))
    } else {
        None
    };
    let verification_checked = if state.is_uninstall {
        state.delete_user_data
    } else {
        state.create_lnk
    };
    let page = ReadyPage {
        title: String::from_str(window_title),
        instruction: String::from_str(title),
        content,
        links,
        radios,
        default_radio,
        verification,
        verification_checked,
    };
    (shown, page)
}

/// What an answer on the ready page does: the picked source and the check
/// box go into the state; the button decides the step.
pub open spec fn take_result_spec(
    s: ReadyState,
    shown: Seq<SourceChoice>,
    button: ReadyButton,
    radio: Option<usize>,
    verified: bool,
) -> (ReadyState, PageStep) {
    let uri = match radio {
        Some(i) => if shown.len() > 0 && i < shown.len() { shown[i as int].uri } else { s.source_uri },
        None => s.source_uri,
    };
    let t = ReadyState {
        source_uri: uri,
        delete_user_data: if s.is_uninstall { verified } else { s.delete_user_data },
        create_lnk: if !s.is_uninstall && !s.is_update { verified } else { s.create_lnk },
        ..s
    };
    let step = match button {
        ReadyButton::Install => if s.is_uninstall {
            PageStep::Act(ReadyAction::Uninstall)
        } else {
            PageStep::Act(ReadyAction::Install)
        },
        ReadyButton::Advanced => PageStep::Act(ReadyAction::Advanced),
        ReadyButton::ChangePath => PageStep::ChangePath,
        _ => PageStep::Close,
    };
    (t, step)
}

/// Takes the user's answer on the ready page: `radio` is the index of the
/// picked source among those shown.
pub fn take_result(
    state: &mut ReadyState,
    shown: &Vec<SourceChoice>,
    button: ReadyButton,
    radio: Option<usize>,
    verified: bool,
) -> (step: PageStep)
    ensures
        (*final(state), step) == take_result_spec(*old(state), shown@, button, radio, verified),
{
    if let Some(i) = radio {
        if shown.len() > 0 && i < shown.len() {
            state.source_uri = shown[i].uri.clone();
        }
    }
    if state.is_uninstall {
        state.delete_user_data = verified;
    } else if !state.is_update {
        state.create_lnk = verified;
    }
    match button {
        ReadyButton::Install => if state.is_uninstall {
            PageStep::Act(ReadyAction::Uninstall)
        } else {
            PageStep::Act(ReadyAction::Install)
        },
        ReadyButton::Advanced => PageStep::Act(ReadyAction::Advanced),
        ReadyButton::ChangePath => PageStep::ChangePath,
        _ => PageStep::Close,
    }
}

/// A directory the user picked; `upgrade` is what inspecting it found
/// (nothing when it could not be inspected).
pub fn path_picked(state: &mut ReadyState, path: String, upgrade: Option<bool>)
    ensures
        *final(state) == (ReadyState {
            path,
            is_update: match upgrade {
                Some(u) => u,
                None => old(state).is_update,
            },
            ..*old(state)
        }),
{
    state.path = path;
    if let Some(u) = upgrade {
        state.is_update = u;
    }
}

/// A CDK that is there and not empty.
pub open spec fn has_cdk(c: Option<String>) -> bool {
    c matches Some(k) && k@.len() > 0
}

fn cdk_present(c: &Option<String>) -> (r: bool)
    ensures
        r == has_cdk(*c),
{
    match c {
        Some(k) => chars_of(k.as_str()).len() > 0,
        None => false,
    }
}

/// What keeps an action from starting: a source that needs a script
/// plugin, outside the web interface; a Mirrorc install without a CDK.
pub open spec fn gate_spec(action: ReadyAction, need_web_view2: bool, needs_plugin: bool, s: ReadyState) -> Gate {
    if action != ReadyAction::Advanced && !need_web_view2 && needs_plugin {
        Gate::NeedsWebView
    } else if action == ReadyAction::Install && has_prefix(s.source_uri@, "mirrorc://"@) && !has_cdk(
        s.mirrorc_cdk,
    ) {
        Gate::NeedsCdk
    } else {
        Gate::Proceed
    }
}

/// What keeps an action from starting.
pub fn ready_gate(action: ReadyAction, need_web_view2: bool, needs_plugin: bool, state: &ReadyState) -> (r: Gate)
    ensures
        r == gate_spec(action, need_web_view2, needs_plugin, *state),
{
    if action != ReadyAction::Advanced && !need_web_view2 && needs_plugin {
        Gate::NeedsWebView
    } else if action == ReadyAction::Install && starts_with_chars(
        &chars_of(state.source_uri.as_str()),
        &chars_of("mirrorc://"),
    ) && !cdk_present(&state.mirrorc_cdk) {
        Gate::NeedsCdk
    } else {
        Gate::Proceed
    }
}

/// After the CDK prompt: an empty answer forgets the CDK and stops, a key
/// is kept and lets the action go on, no answer goes on with whatever CDK
/// there is. (The host stores or deletes the saved CDK to match.)
pub fn cdk_answer(state: &mut ReadyState, key: Option<String>) -> (proceed: bool)
    ensures
        match key {
            Some(k) => if k@.len() == 0 {
                !proceed && *final(state) == (ReadyState { mirrorc_cdk: None, ..*old(state) })
            } else {
                proceed && *final(state) == (ReadyState { mirrorc_cdk: Some(k), ..*old(state) })
            },
            None => proceed == has_cdk(old(state).mirrorc_cdk) && *final(state) == *old(state),
        },
{
    match key {
        Some(k) => {
            if chars_of(k.as_str()).len() == 0 {
                state.mirrorc_cdk = None;
                false
            } else {
                state.mirrorc_cdk = Some(k);
                true
            }
        },
        None => cdk_present(&state.mirrorc_cdk),
    }
}

/// Whether the saved CDK must be looked up before asking: only when no
/// CDK is there yet.
pub fn cdk_needs_lookup(state: &ReadyState) -> (r: bool)
    ensures
        r == !has_cdk(state.mirrorc_cdk),
{
    !cdk_present(&state.mirrorc_cdk)
}

/// The name the CDK is saved under.
pub fn mirrorc_target(app_name: &str) -> (r: String)
    ensures
        r@ == "KachinaInstaller_MirrorChyanCDK_"@ + app_name@,
{
    let mut s = String::from_str("KachinaInstaller_MirrorChyanCDK_");
    s.append(app_name);
    s
}

/// The session's input from the page's choices.
pub fn state_to_input(state: &ReadyState) -> (r: SessionInput)
    ensures
        r == (SessionInput {
            install_path: state.path,
            source_uri: state.source_uri,
            create_lnk: state.create_lnk,
            delete_user_data: state.delete_user_data,
            mirrorc_cdk: state.mirrorc_cdk,
        }),
{
    SessionInput {
        install_path: state.path.clone(),
        source_uri: state.source_uri.clone(),
        create_lnk: state.create_lnk,
        delete_user_data: state.delete_user_data,
        mirrorc_cdk: copy_opt(&state.mirrorc_cdk),
    }
}

/// Whether an action continues in the web interface: always for a project
/// that needs WebView2, else for the advanced install.
pub fn goes_to_web(action: ReadyAction, need_web_view2: bool) -> (r: bool)
    ensures
        r == (need_web_view2 || action == ReadyAction::Advanced),
{
    need_web_view2 || action == ReadyAction::Advanced
}

/// The options the web interface starts with: the page's directory, CDK
/// and source (by its id, when the project lists it), non-interactive
/// unless the user asked for the advanced install, and an uninstall when
/// that was asked.
pub fn web_args(args: InstallArgs, input: &SessionInput, action: ReadyAction, all: &Vec<SourceChoice>) -> (r:
    InstallArgs)
    ensures
        r.target == Some(input.install_path),
        r.mirrorc_cdk == input.mirrorc_cdk,
        r.source == match index_of_uri(all@, input.source_uri@) {
            Some(i) => Some(all@[i].id),
            None => args.source,
        },
        r.non_interactive == (action != ReadyAction::Advanced),
        r.uninstall == (action == ReadyAction::Uninstall),
        r.silent == args.silent,
        r.online == args.online,
        r.dfs_extras == args.dfs_extras,
        r.dump_dir == args.dump_dir,
{
    let mut a = args;
    a.target = Some(input.install_path.clone());
    a.mirrorc_cdk = copy_opt(&input.mirrorc_cdk);
    if let Some(i) = find_uri(all, input.source_uri.as_str()) {
        a.source = Some(all[i].id.clone());
    }
    a.non_interactive = action != ReadyAction::Advanced;
    a.uninstall = action == ReadyAction::Uninstall;
    a
}

/// Error codes after which the CDK is asked for again.
pub const MIRRORC_CDK_EXPIRED: &'static str = "MIRRORC_CDK_EXPIRED";
pub const MIRRORC_CDK_INVALID: &'static str = "MIRRORC_CDK_INVALID";
pub const MIRRORC_CDK_MISMATCH: &'static str = "MIRRORC_CDK_MISMATCH";
pub const MIRRORC_CDK_BANNED: &'static str = "MIRRORC_CDK_BANNED";

/// How a native session ends: a cancelled run shows the page again, a
/// finished one exits (after the finish page), a failed one shows the page
/// again and asks for the CDK when the failure was about it. `code` is
/// the failure's code, when it has one.
pub fn session_outcome(result: &Result<SessionResult, Option<String>>) -> (r: NativeOutcome)
    ensures
        r == match result {
            Ok(s) => if s.cancelled { NativeOutcome::Again { reopen_source: false } } else { NativeOutcome::Exit },
            Err(code) => NativeOutcome::Again {
                reopen_source: code matches Some(c) && (c@ == MIRRORC_CDK_EXPIRED@ || c@ == MIRRORC_CDK_INVALID@
                    || c@ == MIRRORC_CDK_MISMATCH@ || c@ == MIRRORC_CDK_BANNED@),
            },
        },
{
    match result {
        Ok(s) => if s.cancelled {
            NativeOutcome::Again { reopen_source: false }
        } else {
            NativeOutcome::Exit
        },
        Err(code) => {
            let reopen = match code {
                Some(c) => same(c.as_str(), MIRRORC_CDK_EXPIRED) || same(c.as_str(), MIRRORC_CDK_INVALID) || same(
                    c.as_str(),
                    MIRRORC_CDK_MISMATCH,
                ) || same(c.as_str(), MIRRORC_CDK_BANNED),
                None => false,
            };
            NativeOutcome::Again { reopen_source: reopen }
        },
    }
}

/// A non-interactive run does not show the page again: it exits instead.
pub fn non_interactive_outcome(o: NativeOutcome) -> (r: NativeOutcome)
    ensures
        r == match o {
            NativeOutcome::Again { .. } => NativeOutcome::Exit,
            other => other,
        },
{
    match o {
        NativeOutcome::Again { .. } => NativeOutcome::Exit,
        other => other,
    }
}

/// The finish page's heading and whether it offers to launch the program;
/// none after a cancelled run.
pub open spec fn finish_spec(r: SessionResult) -> Option<(Seq<char>, bool)> {
    if r.cancelled {
        None
    } else if r.is_uninstall {
        Some(("卸载成功"@, false))
    } else if r.already_latest {
        Some(("您已安装最新版本"@, true))
    } else if r.is_update {
        Some(("更新完成"@, true))
    } else {
        Some(("安装完成"@, true))
    }
}

/// The finish page; none after a cancelled run.
pub fn finish_page(window_title: &str, result: &SessionResult) -> (r: Option<ReadyPage>)
    ensures
        match (r, finish_spec(*result)) {
            (Some(p), Some((heading, launch))) => {
                &&& p.title@ == window_title@
                &&& p.instruction@ == heading
                &&& p.content@ == Seq::<char>::empty()
                &&& link_views(p.links@) == (if launch {
                    seq![(LinkKind::Launch, "启动"@), (LinkKind::Close, "关闭"@)]
                } else {
                    seq![(LinkKind::Close, "关闭"@)]
                })
                &&& p.radios@.len() == 0
                &&& p.default_radio is None
                &&& p.verification is None
                &&& !p.verification_checked
            },
            (None, None) => true,
            _ => false,
        },
{
    if result.cancelled {
        return None;
    }
    let (heading, launch) = if result.is_uninstall {
        ("卸载成功", false)
    } else if result.already_latest {
        ("您已安装最新版本", true)
    } else if result.is_update {
        ("更新完成", true)
    } else {
        ("安装完成", true)
    };
    let mut links: Vec<PageLink> = Vec::new();
    if launch {
        links.push(PageLink { kind: LinkKind::Launch, text: String::from_str("启动") });
    }
    links.push(PageLink { kind: LinkKind::Close, text: String::from_str("关闭") });
    proof {
        if launch {
            assert(link_views(links@) =~= seq![(LinkKind::Launch, "启动"@), (LinkKind::Close, "关闭"@)]);
        } else {
            assert(link_views(links@) =~= seq![(LinkKind::Close, "关闭"@)]);
        }
    }
    Some(
        ReadyPage {
            title: String::from_str(window_title),
            instruction: String::from_str(heading),
            content: String::new(),
            links,
            radios: Vec::new(),
            default_radio: None,
            verification: None,
            verification_checked: false,
        },
    )
}

/// Once the page is ready, the current source is one of those offered
/// (when any is), so a radio button is always checked.
pub proof fn lemma_ready_source_is_offered(shown: Seq<SourceChoice>, current: Seq<char>)
    requires
        shown.len() > 0,
    ensures
        index_of_uri(shown, fixed_uri(shown, current)) is Some,
{
}

/// Picking the radio button the page checked keeps the source.
pub proof fn lemma_default_radio_keeps_source(
    s: ReadyState,
    shown: Seq<SourceChoice>,
    button: ReadyButton,
    verified: bool,
)
    requires
        index_of_uri(shown, s.source_uri@) is Some,
        shown.len() <= usize::MAX,
    ensures
        take_result_spec(s, shown, button, Some(index_of_uri(shown, s.source_uri@)->Some_0 as usize), verified).0.source_uri@
            == s.source_uri@,
{
    lemma_index_of_uri_found(shown, s.source_uri@);
}

proof fn lemma_index_of_uri_found(v: Seq<SourceChoice>, uri: Seq<char>)
    requires
        index_of_uri(v, uri) is Some,
    ensures
        0 <= index_of_uri(v, uri)->Some_0 < v.len(),
        v[index_of_uri(v, uri)->Some_0].uri@ == uri,
    decreases v.len(),
{
    if v.len() > 0 && v[0].uri@ != uri {
        lemma_index_of_uri_found(v.skip(1), uri);
    }
}

} // verus!
