//! The installer's UI session: the one copy of the UI state, and the
//! transitions that user intents make on it. Renderers show the state
//! wholesale.
//!
//! Probing the install directory touches the disk, so it is not done here:
//! setting a path asks the host to probe it, and the host hands the result
//! back through `path_probed`.

use vstd::prelude::*;
use vstd::string::StringExecFns;
use crate::installer::DirState;
use crate::text::{chars_eq, chars_of, has_prefix, starts_with_chars};

verus! {

/// A failure with a message code, for the user.
#[derive(Clone, Debug, PartialEq, Eq)]
pub struct Coded {
    pub code: String,
    pub subject: Option<String>,
    pub detail: Option<String>,
    pub event_id: Option<String>,
}

/// Mirrorc sources need a CDK before they start.
pub const MIRRORC_CDK_MISSING: &'static str = "MIRRORC_CDK_MISSING";

impl Coded {
    /// A code with nothing more to it.
    pub fn bare(code: &str) -> (r: Coded)
        ensures
            r.code@ == code@,
            r.subject is None,
            r.detail is None,
            r.event_id is None,
    {
        Coded { code: String::from_str(code), subject: None, detail: None, event_id: None }
    }

    /// A code about a subject (a file, a runtime, ...).
    pub fn bare_with(code: &str, subject: String) -> (r: Coded)
        ensures
            r.code@ == code@,
            r.subject == Some(subject),
            r.detail is None,
            r.event_id is None,
    {
        Coded { code: String::from_str(code), subject: Some(subject), detail: None, event_id: None }
    }
}

/// How a session ended.
#[derive(Clone, Copy, Debug, PartialEq, Eq, Structural)]
pub struct SessionResult {
    pub cancelled: bool,
    pub already_latest: bool,
    pub is_update: bool,
    pub is_uninstall: bool,
}

impl SessionResult {
    /// The user stopped the session.
    pub fn cancelled(is_update: bool) -> (r: SessionResult)
        ensures
            r == (SessionResult { cancelled: true, already_latest: false, is_update, is_uninstall: false }),
    {
        SessionResult { cancelled: true, already_latest: false, is_update, is_uninstall: false }
    }

    /// An install or update ran (or had nothing to do).
    pub fn install(already_latest: bool, is_update: bool) -> (r: SessionResult)
        ensures
            r == (SessionResult { cancelled: false, already_latest, is_update, is_uninstall: false }),
    {
        SessionResult { cancelled: false, already_latest, is_update, is_uninstall: false }
    }
}

/// What shows the UI.
#[derive(Clone, Copy, Debug, PartialEq, Eq, Structural)]
pub enum Renderer {
    Native,
    WebView,
}

/// What the session does.
#[derive(Clone, Copy, Debug, PartialEq, Eq, Structural)]
pub enum Mode {
    Install,
    Update,
    Uninstall,
}

/// The project's texts for the window.
#[derive(Clone, Debug, PartialEq, Eq)]
pub struct ProjectView {
    pub window_title: String,
    pub title: String,
    pub description: String,
    pub borderless: bool,
    pub lang: String,
}

/// The user's choices.
#[derive(Clone, Debug, PartialEq, Eq)]
pub struct Options {
    pub install_path: String,
    pub source_uri: String,
    pub create_lnk: bool,
    pub delete_user_data: bool,
    pub mirrorc_cdk: Option<String>,
}

/// One download source the user can pick.
#[derive(Clone, Debug, PartialEq, Eq)]
pub struct SourceItem {
    pub id: String,
    pub name: String,
    pub uri: String,
    pub icon: Option<String>,
    pub requires_webview: bool,
}

/// Whether the install directory can be written.
#[derive(Clone, Copy, Debug, PartialEq, Eq, Structural)]
pub enum PathWritable {
    Writable,
    Unwritable,
    /// Writable, but under a per-user folder.
    Private,
}

/// What a probe of the install directory found.
#[derive(Clone, Copy, Debug, PartialEq, Eq, Structural)]
pub struct PathState {
    pub writable: PathWritable,
    pub exists: bool,
    /// An earlier install is there.
    pub upgrade: bool,
}

/// The state of the Mirrorc CDK check.
#[derive(Clone, Debug, PartialEq, Eq)]
pub enum CdkStatus {
    Idle,
    Checking,
    /// The CDK was checked and is good.
    Valid,
    Invalid(Coded),
}

/// The kind of background theme.
#[derive(Clone, Copy, Debug, PartialEq, Eq, Structural)]
pub enum Theme {
    /// No theme.
    Plain,
    Image,
    Css,
    Html,
}

/// A running session's progress. The percentage is kept as the bits of
/// its IEEE-754 double (`f64::to_bits`); nothing here reads it.
#[derive(Clone, Debug, PartialEq, Eq)]
pub struct Progress {
    pub sub_step: u32,
    pub percent_bits: u64,
    pub stage: String,
    pub subject: Option<String>,
    pub done: Option<u64>,
    pub total: Option<u64>,
}

/// Where the session is.
#[derive(Clone, Debug, PartialEq, Eq)]
pub enum Phase {
    Ready,
    Running(Progress),
    Done(SessionResult),
    Failed(Coded),
}

/// A question to the user, waiting for an answer.
#[derive(Clone, Debug, PartialEq, Eq)]
pub struct Prompt {
    pub id: String,
    pub kind: String,
    pub items: Vec<String>,
    /// Named parameters of the message, in key order.
    pub params: Vec<(String, String)>,
}

/// What the user asks for.
#[derive(Clone, Debug, PartialEq, Eq)]
pub enum Intent {
    SetPath { path: String },
    SetSource { uri: String },
    SetCreateLnk { value: bool },
    SetDeleteUserData { value: bool },
    SetCdk { cdk: String },
    Start,
    Cancel,
    Answer { id: String, ok: bool },
    Dismiss,
    Launch,
    Advanced,
    Close,
}

/// Everything the UI shows.
#[derive(Clone, Debug, PartialEq, Eq)]
pub struct UiState {
    pub phase: Phase,
    pub mode: Mode,
    pub project: ProjectView,
    pub options: Options,
    pub sources: Vec<SourceItem>,
    pub path: PathState,
    pub needs_elevate: bool,
    pub cdk: CdkStatus,
    pub theme: Theme,
    pub pending: Option<Prompt>,
}

pub open spec fn opt_text(o: Option<String>) -> Option<Seq<char>> {
    match o {
        Some(s) => Some(s@),
        None => None,
    }
}

/// The state a new session starts from.
pub open spec fn default_state_spec(s: UiState) -> bool {
    &&& s.phase == Phase::Ready
    &&& s.mode == Mode::Install
    &&& s.project.window_title@ == Seq::<char>::empty()
    &&& s.project.title@ == Seq::<char>::empty()
    &&& s.project.description@ == Seq::<char>::empty()
    &&& !s.project.borderless
    &&& s.project.lang@ == "zh-CN"@
    &&& s.options.install_path@ == Seq::<char>::empty()
    &&& s.options.source_uri@ == Seq::<char>::empty()
    &&& s.options.create_lnk
    &&& !s.options.delete_user_data
    &&& s.options.mirrorc_cdk is None
    &&& s.sources@.len() == 0
    &&& s.path == (PathState { writable: PathWritable::Writable, exists: false, upgrade: false })
    &&& !s.needs_elevate
    &&& s.cdk == CdkStatus::Idle
    &&& s.theme == Theme::Plain
    &&& s.pending is None
}

impl Default for UiState {
    fn default() -> (s: UiState)
        ensures
            default_state_spec(s),
    {
        UiState {
            phase: Phase::Ready,
            mode: Mode::Install,
            project: ProjectView {
                window_title: String::new(),
                title: String::new(),
                description: String::new(),
                borderless: false,
                lang: String::from_str("zh-CN"),
            },
            options: Options {
                install_path: String::new(),
                source_uri: String::new(),
                create_lnk: true,
                delete_user_data: false,
                mirrorc_cdk: None,
            },
            sources: Vec::new(),
            path: PathState { writable: PathWritable::Writable, exists: false, upgrade: false },
            needs_elevate: false,
            cdk: CdkStatus::Idle,
            theme: Theme::Plain,
            pending: None,
        }
    }
}

/// The sources a renderer can show: the native one cannot show those that
/// need a web view.
pub open spec fn visible_sources(all: Seq<SourceItem>, r: Renderer) -> Seq<SourceItem>
    decreases all.len(),
{
    if all.len() == 0 {
        Seq::empty()
    } else {
        let rest = visible_sources(all.drop_last(), r);
        if r == Renderer::Native && all.last().requires_webview {
            rest
        } else {
            rest.push(all.last())
        }
    }
}

/// Whether a source URI is a Mirrorc one.
pub open spec fn is_mirrorc(uri: Seq<char>) -> bool {
    has_prefix(uri, "mirrorc://"@)
}

/// Whether the session must run elevated for a directory: without a UAC
/// strategy, whenever it is not plainly writable; with one, as the
/// strategy says.
pub open spec fn elevate_spec(writable: PathWritable, strategy: Seq<char>, by_strategy: bool) -> bool {
    if strategy.len() == 0 {
        writable != PathWritable::Writable
    } else {
        by_strategy
    }
}

/// The state after a path probe: the mode follows an earlier install
/// (an uninstall session stays one), elevation follows writability.
pub open spec fn probed_state(s: UiState, probed: PathState, strategy: Seq<char>, by_strategy: bool) -> UiState {
    UiState {
        mode: if s.mode == Mode::Uninstall {
            Mode::Uninstall
        } else if probed.upgrade {
            Mode::Update
        } else {
            Mode::Install
        },
        needs_elevate: elevate_spec(probed.writable, strategy, by_strategy),
        path: probed,
        ..s
    }
}

/// A session: the state, the sources it was made with, and what it needs
/// to judge a directory.
pub struct UiSession {
    pub state: UiState,
    all_sources: Vec<SourceItem>,
    renderer: Renderer,
    exe_name: String,
    app_name: String,
    uac_strategy: String,
}

fn copy_source(s: &SourceItem) -> (r: SourceItem)
    ensures
        r == *s,
{
    SourceItem {
        id: s.id.clone(),
        name: s.name.clone(),
        uri: s.uri.clone(),
        icon: match &s.icon {
            Some(i) => Some(i.clone()),
            None => None,
        },
        requires_webview: s.requires_webview,
    }
}

fn copy_sources(v: &Vec<SourceItem>) -> (r: Vec<SourceItem>)
    ensures
        r@ == v@,
{
    let mut out: Vec<SourceItem> = Vec::new();
    let mut i: usize = 0;
    while i < v.len()
        invariant
            i <= v.len(),
            out@ == v@.take(i as int),
        decreases v.len() - i,
    {
        out.push(copy_source(&v[i]));
        i += 1;
        assert(out@ =~= v@.take(i as int));
    }
    assert(v@.take(v.len() as int) =~= v@);
    out
}

fn visible_exec(all: &Vec<SourceItem>, r: Renderer) -> (out: Vec<SourceItem>)
    ensures
        out@ == visible_sources(all@, r),
{
    let mut out: Vec<SourceItem> = Vec::new();
    let mut i: usize = 0;
    while i < all.len()
        invariant
            i <= all.len(),
            out@ == visible_sources(all@.take(i as int), r),
        decreases all.len() - i,
    {
        assert(all@.take(i + 1 as int).drop_last() =~= all@.take(i as int));
        if !(r == Renderer::Native && all[i].requires_webview) {
            out.push(copy_source(&all[i]));
        }
        i += 1;
    }
    assert(all@.take(all.len() as int) =~= all@);
    out
}

fn str_is(a: &str, b: &str) -> (r: bool)
    ensures
        r == (a@ == b@),
{
    chars_eq(&chars_of(a), &chars_of(b))
}

impl UiSession {
    /// The state the UI shows.
    pub closed spec fn ui(&self) -> UiState {
        self.state
    }

    /// The sources the session was made with.
    pub closed spec fn all_sources(&self) -> Seq<SourceItem> {
        self.all_sources@
    }

    pub closed spec fn renderer_spec(&self) -> Renderer {
        self.renderer
    }

    pub closed spec fn exe_name_spec(&self) -> Seq<char> {
        self.exe_name@
    }

    pub closed spec fn app_name_spec(&self) -> Seq<char> {
        self.app_name@
    }

    pub closed spec fn strategy(&self) -> Seq<char> {
        self.uac_strategy@
    }

    /// A session shown natively, with no project names and no UAC strategy.
    pub fn new(state: UiState) -> (s: UiSession)
        ensures
            s.all_sources() == state.sources@,
            s.renderer_spec() == Renderer::Native,
            s.ui() == (UiState { sources: s.ui().sources, ..state }),
            s.ui().sources@ == visible_sources(state.sources@, Renderer::Native),
            s.exe_name_spec() == Seq::<char>::empty(),
            s.app_name_spec() == Seq::<char>::empty(),
            s.strategy() == Seq::<char>::empty(),
    {
        Self::with_renderer(state, Renderer::Native)
    }

    /// A session for a renderer, with no project names and no UAC strategy.
    pub fn with_renderer(state: UiState, renderer: Renderer) -> (s: UiSession)
        ensures
            s.all_sources() == state.sources@,
            s.renderer_spec() == renderer,
            s.ui() == (UiState { sources: s.ui().sources, ..state }),
            s.ui().sources@ == visible_sources(state.sources@, renderer),
            s.exe_name_spec() == Seq::<char>::empty(),
            s.app_name_spec() == Seq::<char>::empty(),
            s.strategy() == Seq::<char>::empty(),
    {
        Self::with_project(state, renderer, String::new(), String::new(), String::new())
    }

    /// A session for a project: the sources shown are those the renderer
    /// can show.
    pub fn with_project(
        state: UiState,
        renderer: Renderer,
        exe_name: String,
        app_name: String,
        uac_strategy: String,
    ) -> (s: UiSession)
        ensures
            s.all_sources() == state.sources@,
            s.renderer_spec() == renderer,
            s.ui() == (UiState { sources: s.ui().sources, ..state }),
            s.ui().sources@ == visible_sources(state.sources@, renderer),
            s.exe_name_spec() == exe_name@,
            s.app_name_spec() == app_name@,
            s.strategy() == uac_strategy@,
    {
        let all_sources = copy_sources(&state.sources);
        let mut sess = UiSession { state, all_sources, renderer, exe_name, app_name, uac_strategy };
        sess.refresh_sources();
        sess
    }

    /// The program's file name, which marks an earlier install when a
    /// probe finds it in the directory.
    pub fn exe_name(&self) -> (r: &str)
        ensures
            r@ == self.exe_name_spec(),
    {
        self.exe_name.as_str()
    }

    fn refresh_sources(&mut self)
        ensures
            final(self).state == (UiState { sources: final(self).state.sources, ..old(self).state }),
            final(self).state.sources@ == visible_sources(old(self).all_sources@, old(self).renderer),
            final(self).all_sources == old(self).all_sources,
            final(self).renderer == old(self).renderer,
            final(self).exe_name == old(self).exe_name,
            final(self).app_name == old(self).app_name,
            final(self).uac_strategy == old(self).uac_strategy,
    {
        self.state.sources = visible_exec(&self.all_sources, self.renderer);
    }

    /// Applies an intent. Returns whether the install path changed and must
    /// be probed; the host then calls `path_probed` with what it found.
    pub fn apply(&mut self, intent: Intent) -> (probe: bool)
        ensures
            final(self).all_sources() == old(self).all_sources(),
            final(self).renderer_spec() == old(self).renderer_spec(),
            final(self).exe_name_spec() == old(self).exe_name_spec(),
            final(self).app_name_spec() == old(self).app_name_spec(),
            final(self).strategy() == old(self).strategy(),
            probe == (intent is SetPath),
            apply_spec(old(self).ui(), intent, final(self).ui(), old(self).all_sources(), old(self).renderer_spec()),
    {
        match intent {
            Intent::SetPath { path } => {
                self.state.options.install_path = path;
                true
            },
            Intent::SetSource { uri } => {
                self.state.options.source_uri = uri;
                if starts_with_chars(&chars_of(self.state.options.source_uri.as_str()), &chars_of("mirrorc://")) {
                    self.state.cdk = CdkStatus::Idle;
                }
                self.refresh_sources();
                false
            },
            Intent::SetCreateLnk { value } => {
                self.state.options.create_lnk = value;
                false
            },
            Intent::SetDeleteUserData { value } => {
                self.state.options.delete_user_data = value;
                false
            },
            Intent::SetCdk { cdk } => {
                self.state.options.mirrorc_cdk = if chars_of(cdk.as_str()).len() == 0 {
                    None
                } else {
                    Some(cdk)
                };
                false
            },
            Intent::Start => {
                let cdk_ok = match &self.state.cdk {
                    CdkStatus::Valid => true,
                    _ => false,
                };
                if starts_with_chars(&chars_of(self.state.options.source_uri.as_str()), &chars_of("mirrorc://"))
                    && !cdk_ok {
                    self.state.phase = Phase::Failed(Coded::bare(MIRRORC_CDK_MISSING));
                }
                false
            },
            Intent::Answer { ok, .. } => {
                let pending = self.state.pending.take();
                if let Some(prompt) = pending {
                    if str_is(prompt.kind.as_str(), "occupied_files") && !ok {
                        let is_update = match self.state.mode {
                            Mode::Update => true,
                            _ => false,
                        };
                        self.state.phase = Phase::Done(SessionResult::cancelled(is_update));
                    }
                }
                false
            },
            Intent::Dismiss => {
                if let Phase::Failed(_) = &self.state.phase {
                    self.state.phase = Phase::Ready;
                }
                false
            },
            Intent::Cancel | Intent::Launch | Intent::Advanced | Intent::Close => false,
        }
    }

    /// Takes in what a probe of the install path found, with what the UAC
    /// strategy says of the directory's state (read only when the session
    /// has a strategy).
    pub fn path_probed(&mut self, probed: PathState, by_strategy: bool)
        ensures
            final(self).ui() == probed_state(old(self).ui(), probed, old(self).strategy(), by_strategy),
            final(self).all_sources() == old(self).all_sources(),
            final(self).renderer_spec() == old(self).renderer_spec(),
            final(self).exe_name_spec() == old(self).exe_name_spec(),
            final(self).app_name_spec() == old(self).app_name_spec(),
            final(self).strategy() == old(self).strategy(),
    {
        match self.state.mode {
            Mode::Uninstall => {},
            _ => {
                if probed.upgrade {
                    self.state.mode = Mode::Update;
                } else {
                    self.state.mode = Mode::Install;
                }
            },
        }
        self.state.needs_elevate = if chars_of(self.uac_strategy.as_str()).len() == 0 {
            match probed.writable {
                PathWritable::Writable => false,
                _ => true,
            }
        } else {
            by_strategy
        };
        self.state.path = probed;
    }
}

/// What an intent does to the state.
pub open spec fn apply_spec(s: UiState, intent: Intent, t: UiState, all: Seq<SourceItem>, r: Renderer) -> bool {
    match intent {
        Intent::SetPath { path } => t == (UiState {
            options: Options { install_path: path, ..s.options },
            ..s
        }),
        Intent::SetSource { uri } => {
            &&& t == (UiState {
                options: Options { source_uri: uri, ..s.options },
                cdk: if is_mirrorc(uri@) { CdkStatus::Idle } else { s.cdk },
                sources: t.sources,
                ..s
            })
            &&& t.sources@ == visible_sources(all, r)
        },
        Intent::SetCreateLnk { value } => t == (UiState {
            options: Options { create_lnk: value, ..s.options },
            ..s
        }),
        Intent::SetDeleteUserData { value } => t == (UiState {
            options: Options { delete_user_data: value, ..s.options },
            ..s
        }),
        Intent::SetCdk { cdk } => t == (UiState {
            options: Options {
                mirrorc_cdk: if cdk@.len() == 0 { None } else { Some(cdk) },
                ..s.options
            },
            ..s
        }),
        Intent::Start => if is_mirrorc(s.options.source_uri@) && s.cdk != CdkStatus::Valid {
            &&& t == (UiState { phase: t.phase, ..s })
            &&& t.phase matches Phase::Failed(c) && c.code@ == MIRRORC_CDK_MISSING@ && c.subject is None
                && c.detail is None && c.event_id is None
        } else {
            t == s
        },
        Intent::Answer { ok, .. } => match s.pending {
            Some(p) => if p.kind@ == "occupied_files"@ && !ok {
                t == (UiState {
                    pending: None,
                    phase: Phase::Done(
                        SessionResult {
                            cancelled: true,
                            already_latest: false,
                            is_update: s.mode == Mode::Update,
                            is_uninstall: false,
                        },
                    ),
                    ..s
                })
            } else {
                t == (UiState { pending: None, ..s })
            },
            None => t == s,
        },
        Intent::Dismiss => if s.phase is Failed {
            t == (UiState { phase: Phase::Ready, ..s })
        } else {
            t == s
        },
        _ => t == s,
    }
}

/// Choosing a Mirrorc source and then starting, with no CDK check in
/// between, fails for the missing CDK: choosing the source forgets any
/// earlier check.
pub proof fn lemma_mirrorc_start_needs_fresh_cdk(
    s: UiState,
    uri: String,
    t1: UiState,
    t2: UiState,
    all: Seq<SourceItem>,
    r: Renderer,
)
    requires
        is_mirrorc(uri@),
        apply_spec(s, Intent::SetSource { uri }, t1, all, r),
        apply_spec(t1, Intent::Start, t2, all, r),
    ensures
        t2.phase matches Phase::Failed(c) && c.code@ == MIRRORC_CDK_MISSING@,
        t2.options == t1.options,
{
}

/// Dismissing never changes the user's choices, and leaves no failure
/// behind.
pub proof fn lemma_dismiss_keeps_options(s: UiState, t: UiState, all: Seq<SourceItem>, r: Renderer)
    requires
        apply_spec(s, Intent::Dismiss, t, all, r),
    ensures
        t.options == s.options,
        !(t.phase is Failed),
        s.phase is Failed ==> t.phase == Phase::Ready,
{
}

/// An answer always consumes the waiting prompt.
pub proof fn lemma_answer_clears_prompt(s: UiState, id: String, ok: bool, t: UiState, all: Seq<SourceItem>, r: Renderer)
    requires
        apply_spec(s, Intent::Answer { id, ok }, t, all, r),
    ensures
        t.pending is None,
        t.options == s.options,
{
}

/// The intents that set an option change nothing but the options (and,
/// for a source, the CDK check and the visible sources): the phase, the
/// mode and the path stay.
pub proof fn lemma_options_keep_phase(s: UiState, intent: Intent, t: UiState, all: Seq<SourceItem>, r: Renderer)
    requires
        intent is SetPath || intent is SetSource || intent is SetCreateLnk || intent is SetDeleteUserData
            || intent is SetCdk,
        apply_spec(s, intent, t, all, r),
    ensures
        t.phase == s.phase,
        t.mode == s.mode,
        t.path == s.path,
        t.needs_elevate == s.needs_elevate,
        t.pending == s.pending,
{
}

/// A probe's result decides the mode and elevation, whatever path or
/// state came before, except that an uninstall stays one.
pub proof fn lemma_probe_decides(s1: UiState, s2: UiState, probed: PathState, strategy: Seq<char>, by_strategy: bool)
    requires
        (s1.mode == Mode::Uninstall) == (s2.mode == Mode::Uninstall),
    ensures
        probed_state(s1, probed, strategy, by_strategy).mode == probed_state(s2, probed, strategy, by_strategy).mode,
        probed_state(s1, probed, strategy, by_strategy).needs_elevate == probed_state(
            s2,
            probed,
            strategy,
            by_strategy,
        ).needs_elevate,
        strategy.len() == 0 ==> (probed_state(s1, probed, strategy, by_strategy).needs_elevate <==> probed.writable
            != PathWritable::Writable),
{
}

/// A probe's writability as a directory state.
pub fn dir_state(w: PathWritable) -> (r: DirState)
    ensures
        r == match w {
            PathWritable::Writable => DirState::Writable,
            PathWritable::Unwritable => DirState::Unwritable,
            PathWritable::Private => DirState::Private,
        },
{
    match w {
        PathWritable::Writable => DirState::Writable,
        PathWritable::Unwritable => DirState::Unwritable,
        PathWritable::Private => DirState::Private,
    }
}

} // verus!
