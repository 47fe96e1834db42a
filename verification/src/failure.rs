//! Sorting failures: what kind of failure an error chain is (for the fail
//! counter) and whether it goes to error reporting, plus the user-facing
//! wording of download failures.
//!
//! An error is a chain of causes, outermost context first. A cause marked
//! `Expected` is an environment or user error: it is never reported, and its
//! message is what the user sees.

use vstd::prelude::*;
use crate::text::{contains, contains_exec, chars_of, has_prefix, is_ws, char_is_ws, lower, lowercase, push_chars, slice_chars, starts_with_chars, string_of, str_contains, occurs_at, occurs_at_exec};
use vstd::string::StringExecFns;

verus! {

/// The coarse kind of a failure.
#[derive(Clone, Copy, Debug, PartialEq, Eq, Structural)]
pub enum FailKind {
    Network,
    Disk,
    Permission,
    Hash,
    Cancelled,
    Other,
}

impl FailKind {
    pub fn as_str(self) -> (r: &'static str)
        ensures
            r@ == fail_kind_name(self),
    {
        match self {
            FailKind::Network => "network",
            FailKind::Disk => "disk",
            FailKind::Permission => "permission",
            FailKind::Hash => "hash",
            FailKind::Cancelled => "cancelled",
            FailKind::Other => "other",
        }
    }
}

pub open spec fn fail_kind_name(k: FailKind) -> Seq<char> {
    match k {
        FailKind::Network => "network"@,
        FailKind::Disk => "disk"@,
        FailKind::Permission => "permission"@,
        FailKind::Hash => "hash"@,
        FailKind::Cancelled => "cancelled"@,
        FailKind::Other => "other"@,
    }
}

/// The mark of an environment or user error: never reported; its message
/// is the user-visible text.
#[derive(Clone, Debug, PartialEq, Eq)]
pub struct Expected {
    pub kind: FailKind,
    pub msg: String,
}

/// The kinds of I/O failure that sorting tells apart.
#[derive(Clone, Copy, Debug, PartialEq, Eq, Structural)]
pub enum IoKind {
    PermissionDenied,
    TimedOut,
    ConnectionRefused,
    ConnectionReset,
    ConnectionAborted,
    NotConnected,
    UnexpectedEof,
    Other,
}

/// One link of an error chain.
#[derive(Clone, Debug, PartialEq, Eq)]
pub enum Cause {
    Expected(Expected),
    /// An I/O error, with its message.
    Io { kind: IoKind, message: String },
    /// An HTTP client error, with its message.
    Request { message: String },
    /// Any other error or context message.
    Message(String),
}

/// An error: its causes, outermost context first.
#[derive(Clone, Debug, PartialEq, Eq)]
pub struct ErrorChain {
    pub causes: Vec<Cause>,
}

/// What sorting says of an error: its kind for the fail counter, and
/// whether it goes to error reporting.
#[derive(Clone, Copy, Debug, PartialEq, Eq, Structural)]
pub struct Classified {
    pub kind: FailKind,
    pub report: bool,
}

pub open spec fn cause_message(c: Cause) -> Seq<char> {
    match c {
        Cause::Expected(e) => e.msg@,
        Cause::Io { message, .. } => message@,
        Cause::Request { message } => message@,
        Cause::Message(m) => m@,
    }
}

/// The messages joined by `: `, outermost first: the alternate display of
/// the chain.
pub open spec fn chain_text(causes: Seq<Cause>) -> Seq<char>
    decreases causes.len(),
{
    if causes.len() == 0 {
        Seq::empty()
    } else if causes.len() == 1 {
        cause_message(causes[0])
    } else {
        chain_text(causes.drop_last()) + seq![':', ' '] + cause_message(causes.last())
    }
}

/// The kind a cause shows by its type alone.
pub open spec fn kind_of_cause(c: Cause) -> Option<FailKind> {
    match c {
        Cause::Io { kind, .. } => Some(
            match kind {
                IoKind::PermissionDenied => FailKind::Permission,
                IoKind::TimedOut | IoKind::ConnectionRefused | IoKind::ConnectionReset
                | IoKind::ConnectionAborted | IoKind::NotConnected | IoKind::UnexpectedEof => FailKind::Network,
                IoKind::Other => FailKind::Disk,
            },
        ),
        Cause::Request { .. } => Some(FailKind::Network),
        _ => None,
    }
}

pub const PKG_BROKEN: &'static str = "安装包损坏，请重新下载";
pub const META_FAILED: &'static str = "获取更新信息失败，请检查网络连接";
pub const HASH_INVALID: &'static str = "更新服务端配置有误，不支持的哈希算法";
pub const UNINSTALL_META_MISSING: &'static str = "未找到卸载配置文件，请重新安装后再卸载";
pub const PATH_INVALID: &'static str = "安装路径无效";
pub const TEMP_DIR: &'static str = "无法访问临时文件夹";
pub const NO_DOWNLOAD_NODE: &'static str = "没有可用的下载节点";
pub const DFS2_SESSION: &'static str = "创建下载会话失败";
pub const FILE_MISSING: &'static str = "无法获取所需文件，请检查网络连接或更换下载源";
pub const PLUGIN_NO_UI: &'static str = "该安装源需要图形界面";
pub const PLUGIN_NEED_WEBVIEW2: &'static str = "该安装源需要 WebView2";
pub const PLUGIN_HOST_FAILED: &'static str = "插件宿主启动失败";
/// Short code of a download that made almost no progress.
pub const DOWNLOAD_STALLED: &'static str = "DOWNLOAD_STALLED";
/// Short code of a large download that stayed too slow.
pub const DOWNLOAD_TOO_SLOW: &'static str = "DOWNLOAD_TOO_SLOW";

/// The kind an error text shows. Only the repository's own short codes and
/// user-facing message constants are matched, never free text.
pub open spec fn kind_from_text_spec(t: Seq<char>) -> Option<FailKind> {
    if contains(t, "HASH_MISMATCH_ERR"@) || contains(t, PKG_BROKEN@) {
        Some(FailKind::Hash)
    } else if contains(t, DOWNLOAD_STALLED@) || contains(t, DOWNLOAD_TOO_SLOW@) || contains(
        t,
        META_FAILED@,
    ) || contains(t, NO_DOWNLOAD_NODE@) || contains(t, DFS2_SESSION@) || contains(t, FILE_MISSING@) {
        Some(FailKind::Network)
    } else if contains(t, "cancelled"@) {
        Some(FailKind::Cancelled)
    } else if contains(t, "Access is denied"@) || contains(t, "拒绝访问"@) || contains(
        t,
        "(os error 5)"@,
    ) {
        Some(FailKind::Permission)
    } else if contains(t, TEMP_DIR@) {
        Some(FailKind::Disk)
    } else {
        None
    }
}

/// The kind an error text shows.
pub fn kind_from_text(text: &str) -> (r: Option<FailKind>)
    ensures
        r == kind_from_text_spec(text@),
{
    if str_contains(text, "HASH_MISMATCH_ERR") || str_contains(text, PKG_BROKEN) {
        return Some(FailKind::Hash);
    }
    if str_contains(text, DOWNLOAD_STALLED) || str_contains(text, DOWNLOAD_TOO_SLOW) || str_contains(
        text,
        META_FAILED,
    ) || str_contains(text, NO_DOWNLOAD_NODE) || str_contains(text, DFS2_SESSION) || str_contains(
        text,
        FILE_MISSING,
    ) {
        return Some(FailKind::Network);
    }
    if str_contains(text, "cancelled") {
        return Some(FailKind::Cancelled);
    }
    if str_contains(text, "Access is denied") || str_contains(text, "拒绝访问") || str_contains(
        text,
        "(os error 5)",
    ) {
        return Some(FailKind::Permission);
    }
    if str_contains(text, TEMP_DIR) {
        return Some(FailKind::Disk);
    }
    None
}

/// The kind a cause shows by its type alone.
pub fn kind_from_cause(cause: &Cause) -> (r: Option<FailKind>)
    ensures
        r == kind_of_cause(*cause),
{
    match cause {
        Cause::Io { kind, .. } => Some(
            match kind {
                IoKind::PermissionDenied => FailKind::Permission,
                IoKind::TimedOut | IoKind::ConnectionRefused | IoKind::ConnectionReset
                | IoKind::ConnectionAborted | IoKind::NotConnected | IoKind::UnexpectedEof => FailKind::Network,
                IoKind::Other => FailKind::Disk,
            },
        ),
        Cause::Request { .. } => Some(FailKind::Network),
        _ => None,
    }
}

/// Walking the causes outermost first: whether an `Expected` mark was met,
/// and the first kind found (an `Expected` mark's own kind unless `Other`,
/// else what the cause's type shows).
pub open spec fn scan_causes(causes: Seq<Cause>) -> (bool, Option<FailKind>)
    decreases causes.len(),
{
    if causes.len() == 0 {
        (false, None)
    } else {
        let (expected, kind) = scan_causes(causes.drop_last());
        match causes.last() {
            Cause::Expected(mark) => (
                true,
                if kind is None && mark.kind != FailKind::Other {
                    Some(mark.kind)
                } else {
                    kind
                },
            ),
            c => (expected, if kind is None { kind_of_cause(c) } else { kind }),
        }
    }
}

/// How an error is sorted: the kind the causes show, else the kind its
/// text shows, else `Other`; reported unless some cause is `Expected`.
pub open spec fn classify_spec(causes: Seq<Cause>) -> Classified {
    let (expected, kind) = scan_causes(causes);
    Classified {
        kind: match kind {
            Some(k) => k,
            None => match kind_from_text_spec(chain_text(causes)) {
                Some(k) => k,
                None => FailKind::Other,
            },
        },
        report: !expected,
    }
}

fn cause_text(c: &Cause) -> (r: &str)
    ensures
        r@ == cause_message(*c),
{
    match c {
        Cause::Expected(e) => e.msg.as_str(),
        Cause::Io { message, .. } => message.as_str(),
        Cause::Request { message } => message.as_str(),
        Cause::Message(m) => m.as_str(),
    }
}

impl ErrorChain {
    /// An error of one plain message.
    pub fn msg(text: &str) -> (r: ErrorChain)
        ensures
            r.causes@.len() == 1,
            r.causes@[0] is Message,
            cause_message(r.causes@[0]) == text@,
    {
        ErrorChain { causes: vec![Cause::Message(String::from_str(text))] }
    }

    /// The error wrapped in an outer context message.
    pub fn context(self, text: &str) -> (r: ErrorChain)
        ensures
            r.causes@.len() == self.causes@.len() + 1,
            r.causes@[0] is Message && cause_message(r.causes@[0]) == text@,
            r.causes@.skip(1) == self.causes@,
    {
        let mut causes: Vec<Cause> = Vec::new();
        causes.push(Cause::Message(String::from_str(text)));
        let mut old = self.causes;
        let ghost all = old@;
        assert(all.len() == old.len());
        assert(all.skip(0) == all);
        assert(causes@.skip(1) =~= all.take(0));
        let mut i: usize = 0;
        while old.len() > 0
            invariant
                i + old.len() == all.len(),
                all.len() <= usize::MAX,
                old@ == all.skip(i as int),
                causes@.len() == i + 1,
                causes@[0] is Message && cause_message(causes@[0]) == text@,
                causes@.skip(1) == all.take(i as int),
            decreases old.len(),
        {
            let c = old.remove(0);
            assert(c == all[i as int]);
            assert(all.skip(i as int).remove(0) == all.skip(i as int + 1));
            causes.push(c);
            assert(causes@.skip(1) =~= all.take(i as int + 1));
            i += 1;
        }
        assert(all.take(i as int) == all);
        ErrorChain { causes }
    }

    /// The messages joined by `: `, outermost first (`{:#}`).
    pub fn alternate_text(&self) -> (r: String)
        ensures
            r@ == chain_text(self.causes@),
    {
        let mut out = String::new();
        let mut i: usize = 0;
        while i < self.causes.len()
            invariant
                i <= self.causes.len(),
                out@ == chain_text(self.causes@.take(i as int)),
            decreases self.causes.len() - i,
        {
            let ghost t = self.causes@.take(i as int + 1);
            assert(t.drop_last() == self.causes@.take(i as int));
            assert(t.last() == self.causes@[i as int]);
            if i > 0 {
                out.append(": ");
                proof {
                    reveal_strlit(": ");
                }
            }
            out.append(cause_text(&self.causes[i]));
            proof {
                if i == 0 {
                    assert(t.len() == 1);
                    assert(t[0] == self.causes@[0]);
                    assert(chain_text(self.causes@.take(0)) == Seq::<char>::empty());
                    assert(out@ =~= chain_text(t));
                } else {
                    assert(": "@ =~= seq![':', ' ']);
                    assert(out@ =~= chain_text(t));
                }
            }
            i += 1;
        }
        assert(self.causes@.take(self.causes.len() as int) == self.causes@);
        out
    }
}

/// Sorts an error: the kind for the fail counter, and whether it goes to
/// error reporting. Both consumers share this one judgement.
pub fn classify(err: &ErrorChain) -> (r: Classified)
    ensures
        r == classify_spec(err.causes@),
{
    let mut expected = false;
    let mut kind: Option<FailKind> = None;
    let mut i: usize = 0;
    while i < err.causes.len()
        invariant
            i <= err.causes.len(),
            (expected, kind) == scan_causes(err.causes@.take(i as int)),
        decreases err.causes.len() - i,
    {
        let ghost t = err.causes@.take(i as int + 1);
        assert(t.drop_last() == err.causes@.take(i as int));
        assert(t.last() == err.causes@[i as int]);
        match &err.causes[i] {
            Cause::Expected(mark) => {
                expected = true;
                if kind.is_none() && mark.kind != FailKind::Other {
                    kind = Some(mark.kind);
                }
            },
            c => {
                if kind.is_none() {
                    kind = kind_from_cause(c);
                }
            },
        }
        i += 1;
    }
    assert(err.causes@.take(err.causes.len() as int) == err.causes@);
    let kind = match kind {
        Some(k) => k,
        None => {
            let text = err.alternate_text();
            match kind_from_text(text.as_str()) {
                Some(k) => k,
                None => FailKind::Other,
            }
        },
    };
    Classified { kind, report: !expected }
}

/// An error marked expected, of the given kind and message.
pub fn expected(kind: FailKind, msg: String) -> (r: ErrorChain)
    ensures
        r.causes@.len() == 1,
        r.causes@[0] == Cause::Expected(Expected { kind, msg }),
{
    ErrorChain { causes: vec![Cause::Expected(Expected { kind, msg })] }
}

/// A user error: expected, of kind `Other`.
pub fn user(msg: String) -> (r: ErrorChain)
    ensures
        r.causes@.len() == 1,
        r.causes@[0] == Cause::Expected(Expected { kind: FailKind::Other, msg }),
{
    expected(FailKind::Other, msg)
}

pub open spec fn plugin_not_found_text(name: Seq<char>) -> Seq<char> {
    "Plugin \""@ + name + "\" not found"@
}

/// The user error of a missing plugin.
pub fn plugin_not_found(name: &str) -> (r: ErrorChain)
    ensures
        r.causes@.len() == 1,
        r.causes@[0] is Expected,
        r.causes@[0]->Expected_0.kind == FailKind::Other,
        r.causes@[0]->Expected_0.msg@ == plugin_not_found_text(name@),
{
    let mut m = String::from_str("Plugin \"");
    m.append(name);
    m.append("\" not found");
    user(m)
}

/// A reported error showing only `user_msg`; the detailed cause goes to the
/// log, which is the caller's.
pub fn hide_detail(user_msg: &str) -> (r: ErrorChain)
    ensures
        r.causes@.len() == 1,
        r.causes@[0] is Message,
        cause_message(r.causes@[0]) == user_msg@,
{
    ErrorChain::msg(user_msg)
}

/// A URL starts at `i`: `http://` or `https://`.
pub open spec fn url_starts(s: Seq<char>, i: int) -> bool {
    has_prefix(s.skip(i), "http://"@) || has_prefix(s.skip(i), "https://"@)
}

pub open spec fn first_url_from(s: Seq<char>, i: int) -> Option<int>
    decreases s.len() - i,
{
    if i < 0 || i >= s.len() {
        None
    } else if url_starts(s, i) {
        Some(i)
    } else {
        first_url_from(s, i + 1)
    }
}

/// A URL ends before whitespace, `)` or `,`.
pub open spec fn ends_url(c: char) -> bool {
    is_ws(c) || c == ')' || c == ','
}

pub open spec fn url_end_from(r: Seq<char>, j: int) -> int
    decreases r.len() - j,
{
    if j < 0 || j >= r.len() {
        r.len() as int
    } else if ends_url(r[j]) {
        j
    } else {
        url_end_from(r, j + 1)
    }
}

/// The first URL in the text.
pub open spec fn first_url(s: Seq<char>) -> Option<Seq<char>> {
    match first_url_from(s, 0) {
        Some(i) => Some(s.skip(i).take(url_end_from(s.skip(i), 0))),
        None => None,
    }
}

/// Every occurrence of `pat`, left to right and not overlapping, replaced
/// by `rep`, as `str::replace` does for a non-empty pattern.
pub open spec fn replace_all(s: Seq<char>, pat: Seq<char>, rep: Seq<char>) -> Seq<char>
    decreases s.len(),
{
    if pat.len() == 0 || s.len() < pat.len() {
        s
    } else if has_prefix(s, pat) {
        rep + replace_all(s.skip(pat.len() as int), pat, rep)
    } else {
        seq![s[0]] + replace_all(s.skip(1), pat, rep)
    }
}

pub open spec fn friendly_hint(raw: Seq<char>, check: Seq<char>) -> Option<Seq<char>> {
    if contains(raw, "operation timed out"@) {
        Some("连接下载服务器超时，请检查你的网络连接或更换下载源"@)
    } else if contains(check, "connection refused"@) {
        Some("下载服务器出现问题，请重试或更换下载源"@)
    } else if contains(check, "connection reset"@) {
        Some("连接下载服务器失败，请重试或更换下载源"@)
    } else if contains(check, "too_slow"@) || contains(check, "stalled"@) {
        Some("检测到下载速度异常，请检查你的网络连接或更换下载源"@)
    } else {
        None
    }
}

/// The user-facing wording of a download error: its first URL replaced by
/// `[url]`, a hint for known network failures in front, and the URL after.
pub open spec fn friendly_spec(raw: Seq<char>) -> Seq<char> {
    let url = first_url(raw);
    let without = match url {
        Some(u) => replace_all(raw, u, "[url]"@),
        None => raw,
    };
    let hint = friendly_hint(raw, lowercase(without));
    match (hint, url) {
        (Some(m), Some(u)) => m + "\n\n原始错误："@ + without + "\n\n下载服务器："@ + u,
        (Some(m), None) => m + "\n\n原始错误："@ + without,
        (None, Some(u)) => without + "\n\n下载服务器："@ + u,
        (None, None) => without,
    }
}

fn find_url(s: &[char]) -> (r: Option<Vec<char>>)
    ensures
        match r {
            Some(u) => first_url(s@) == Some(u@),
            None => first_url(s@) is None,
        },
{
    proof {
        reveal_strlit("http://");
        reveal_strlit("https://");
    }
    let p1 = chars_of("http://");
    let p2 = chars_of("https://");
    let mut i: usize = 0;
    assert(first_url_from(s@, 0) == first_url_from(s@, i as int));
    while i < s.len()
        invariant
            i <= s.len(),
            p1@ == "http://"@,
            p2@ == "https://"@,
            first_url_from(s@, 0) == first_url_from(s@, i as int),
        decreases s.len() - i,
    {
        assert(s@.skip(i as int) == s@.subrange(i as int, s.len() as int));
        let rest = slice_chars(s, i, s.len());
        if starts_with_chars(&rest, &p1) || starts_with_chars(&rest, &p2) {
            let mut j: usize = 0;
            assert(url_end_from(rest@, 0) == url_end_from(rest@, j as int));
            while j < rest.len() && !(char_is_ws(rest[j]) || rest[j] == ')' || rest[j] == ',')
                invariant
                    j <= rest.len(),
                    url_end_from(rest@, 0) == url_end_from(rest@, j as int),
                decreases rest.len() - j,
            {
                j += 1;
            }
            assert(rest@.take(j as int) == rest@.subrange(0, j as int));
            return Some(slice_chars(&rest, 0, j));
        }
        i += 1;
    }
    None
}

fn replace_chars(s: &[char], pat: &[char], rep: &[char]) -> (r: Vec<char>)
    ensures
        r@ == replace_all(s@, pat@, rep@),
{
    let mut out: Vec<char> = Vec::new();
    if pat.len() == 0 {
        let mut k: usize = 0;
        while k < s.len()
            invariant
                k <= s.len(),
                out@ == s@.take(k as int),
            decreases s.len() - k,
        {
            out.push(s[k]);
            k += 1;
            assert(s@.take(k as int) == s@.take(k - 1 as int).push(s@[k - 1 as int]));
        }
        assert(s@.take(s.len() as int) == s@);
        return out;
    }
    let mut i: usize = 0;
    assert(s@.skip(0) == s@);
    while i < s.len() && s.len() - i >= pat.len()
        invariant
            i <= s.len(),
            pat@.len() > 0,
            out@ + replace_all(s@.skip(i as int), pat@, rep@) == replace_all(s@, pat@, rep@),
        decreases s.len() - i,
    {
        let ghost rest = s@.skip(i as int);
        assert(s@.subrange(i as int, i + pat.len()) == rest.take(pat.len() as int));
        if occurs_at_exec(s, pat, i) {
            let mut k: usize = 0;
            let ghost before = out@;
            while k < rep.len()
                invariant
                    k <= rep.len(),
                    out@ == before + rep@.take(k as int),
                decreases rep.len() - k,
            {
                out.push(rep[k]);
                k += 1;
                assert(rep@.take(k as int) == rep@.take(k - 1 as int).push(rep@[k - 1 as int]));
            }
            assert(rep@.take(rep.len() as int) == rep@);
            assert(rest.skip(pat.len() as int) == s@.skip(i + pat.len()));
            assert(out@ + replace_all(s@.skip(i + pat.len()), pat@, rep@) =~= before + replace_all(rest, pat@, rep@));
            i = i + pat.len();
        } else {
            let ghost before = out@;
            out.push(s[i]);
            assert(rest[0] == s@[i as int]);
            assert(rest.skip(1) == s@.skip(i + 1 as int));
            assert(out@ + replace_all(s@.skip(i + 1 as int), pat@, rep@) =~= before + replace_all(rest, pat@, rep@));
            i += 1;
        }
    }
    let ghost rest = s@.skip(i as int);
    assert(replace_all(rest, pat@, rep@) == rest);
    let mut k: usize = i;
    let ghost before = out@;
    while k < s.len()
        invariant
            i <= k <= s.len(),
            out@ == before + s@.subrange(i as int, k as int),
        decreases s.len() - k,
    {
        out.push(s[k]);
        k += 1;
        assert(s@.subrange(i as int, k as int) == s@.subrange(i as int, k - 1 as int).push(s@[k - 1 as int]));
    }
    assert(s@.subrange(i as int, s.len() as int) == rest);
    out
}

/// The user-facing wording of a download error.
pub fn friendly(err: &str) -> (r: String)
    ensures
        r@ == friendly_spec(err@),
{
    let raw = chars_of(err);
    let url = find_url(&raw);
    let without: Vec<char> = match &url {
        Some(u) => replace_chars(&raw, u, &chars_of("[url]")),
        None => raw.clone(),
    };
    let without_s = string_of(&without);
    let check = lower(without_s.as_str());
    let hint: Option<&'static str> = if str_contains(err, "operation timed out") {
        Some("连接下载服务器超时，请检查你的网络连接或更换下载源")
    } else if str_contains(check.as_str(), "connection refused") {
        Some("下载服务器出现问题，请重试或更换下载源")
    } else if str_contains(check.as_str(), "connection reset") {
        Some("连接下载服务器失败，请重试或更换下载源")
    } else if str_contains(check.as_str(), "too_slow") || str_contains(check.as_str(), "stalled") {
        Some("检测到下载速度异常，请检查你的网络连接或更换下载源")
    } else {
        None
    };
    let mut out = String::new();
    match hint {
        Some(m) => {
            out.append(m);
            out.append("\n\n原始错误：");
            out.append(without_s.as_str());
            match &url {
                Some(u) => {
                    out.append("\n\n下载服务器：");
                    push_chars(&mut out, u);
                },
                None => {},
            }
        },
        None => {
            out.append(without_s.as_str());
            match &url {
                Some(u) => {
                    out.append("\n\n下载服务器：");
                    push_chars(&mut out, u);
                },
                None => {},
            }
        },
    }
    out
}

pub open spec fn release_kind(raw: Seq<char>) -> FailKind {
    match kind_from_text_spec(raw) {
        Some(k) => k,
        None => {
            let check = lowercase(raw);
            if contains(check, "timed out"@) || contains(check, "connection"@) || contains(
                check,
                "too_slow"@,
            ) || contains(check, "stalled"@) {
                FailKind::Network
            } else {
                FailKind::Other
            }
        },
    }
}

/// A download or extraction failure of one file: an environment error,
/// expected, with the friendly wording of the cause.
pub fn file_release(file_name: &str, err: &str) -> (r: ErrorChain)
    ensures
        r.causes@.len() == 1,
        r.causes@[0] is Expected,
        r.causes@[0]->Expected_0.kind == release_kind(err@),
        r.causes@[0]->Expected_0.msg@ == "释放文件 "@ + file_name@ + " 失败：\n"@ + friendly_spec(err@),
{
    let check = lower(err);
    let kind = match kind_from_text(err) {
        Some(k) => k,
        None => if str_contains(check.as_str(), "timed out") || str_contains(check.as_str(), "connection")
            || str_contains(check.as_str(), "too_slow") || str_contains(check.as_str(), "stalled") {
            FailKind::Network
        } else {
            FailKind::Other
        },
    };
    let mut m = String::from_str("释放文件 ");
    m.append(file_name);
    m.append(" 失败：\n");
    let f = friendly(err);
    m.append(f.as_str());
    expected(kind, m)
}


/// A cause that shows no kind of its own: a plain message, or an
/// `Expected` mark of kind `Other`.
pub open spec fn shows_no_kind(c: Cause) -> bool {
    c is Message || (c matches Cause::Expected(e) && e.kind == FailKind::Other)
}

/// An I/O failure of the network's making.
pub open spec fn network_io(k: IoKind) -> bool {
    k == IoKind::TimedOut || k == IoKind::ConnectionRefused || k == IoKind::ConnectionReset
        || k == IoKind::ConnectionAborted || k == IoKind::NotConnected || k == IoKind::UnexpectedEof
}

proof fn lemma_scan_no_kind(causes: Seq<Cause>, n: int)
    requires
        0 <= n <= causes.len(),
        forall|j: int| 0 <= j < n ==> shows_no_kind(#[trigger] causes[j]),
    ensures
        scan_causes(causes.take(n)).1 is None,
    decreases n,
{
    if n > 0 {
        assert(causes.take(n).drop_last() =~= causes.take(n - 1));
        assert(causes.take(n).last() == causes[n - 1]);
        lemma_scan_no_kind(causes, n - 1);
    }
}

proof fn lemma_scan_network(causes: Seq<Cause>, i: int, n: int)
    requires
        0 <= i < n <= causes.len(),
        causes[i] matches Cause::Io { kind, .. } && network_io(kind),
        forall|j: int| 0 <= j < i ==> shows_no_kind(#[trigger] causes[j]),
    ensures
        scan_causes(causes.take(n)).1 == Some(FailKind::Network),
    decreases n,
{
    assert(causes.take(n).drop_last() =~= causes.take(n - 1));
    assert(causes.take(n).last() == causes[n - 1]);
    if n == i + 1 {
        lemma_scan_no_kind(causes, i);
    } else {
        lemma_scan_network(causes, i, n - 1);
    }
}

/// An I/O failure of the network's making (timed out, refused, reset,
/// aborted, not connected, unexpected end) that is the first cause showing
/// a kind sorts the error as a network failure.
pub proof fn lemma_connection_failure_is_network(causes: Seq<Cause>, i: int)
    requires
        0 <= i < causes.len(),
        causes[i] matches Cause::Io { kind, .. } && network_io(kind),
        forall|j: int| 0 <= j < i ==> shows_no_kind(#[trigger] causes[j]),
    ensures
        classify_spec(causes).kind == FailKind::Network,
{
    lemma_scan_network(causes, i, causes.len() as int);
    assert(causes.take(causes.len() as int) =~= causes);
}

} // verus!
