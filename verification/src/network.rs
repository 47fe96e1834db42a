//! Download bookkeeping: sorting network failures by their message,
//! per-request insight records, the stall and slow-download detector, and
//! reading HTTP `Range` values.

use vstd::prelude::*;
use crate::text::{find_char, first_index, parse_u32, parse_unsigned, chars_of, contains, lower, lowercase, str_contains, string_of, slice_chars, split_chars, split_on, trim_end_ws, trim_end_ws_exec, trim_start_ws, trim_start_ws_exec};
use vstd::string::StringExecFns;
use crate::failure::{DOWNLOAD_STALLED, DOWNLOAD_TOO_SLOW};

verus! {

/// What went wrong with a download.
#[derive(Clone, Debug, PartialEq, Eq)]
pub enum NetworkErrorType {
    ConnectionReset,
    ConnectionTimeout,
    StreamError,
    DnsResolutionFailed,
    TlsHandshakeError,
    HttpProtocolError,
    NetworkUnreachable,
    RequestTimeout,
    ResponseBodyError,
    DownloadStalled,
    DownloadTooSlow,
    /// Not a recognised network failure; holds the original message.
    Other(String),
}

/// A network failure with where it happened.
#[derive(Clone, Debug, PartialEq, Eq)]
pub struct ClassifiedNetworkError {
    pub error_type: NetworkErrorType,
    /// The message of the original error.
    pub original_error: String,
    /// The error code of the failure type.
    pub context: String,
    pub url: String,
    pub range: Vec<(u32, u32)>,
}

/// What one request did: for reports on download quality.
#[derive(Clone, Debug, PartialEq, Eq)]
pub struct InsightItem {
    pub url: String,
    /// Time to the first byte (ms).
    pub ttfb: u32,
    /// Transfer time after the first byte (ms).
    pub time: u32,
    /// Bytes received.
    pub size: u32,
    /// The requested byte ranges.
    pub range: Vec<(u32, u32)>,
    pub error: Option<String>,
    pub mode: Option<String>,
}

/// The error code each failure type carries.
pub open spec fn error_code(t: NetworkErrorType) -> Seq<char> {
    match t {
        NetworkErrorType::ConnectionReset => "ERR_CONNECTION_RESET"@,
        NetworkErrorType::ConnectionTimeout => "ERR_CONNECTION_TIMEOUT"@,
        NetworkErrorType::StreamError => "ERR_STREAM_ERROR"@,
        NetworkErrorType::DnsResolutionFailed => "ERR_DNS_RESOLUTION_FAILED"@,
        NetworkErrorType::TlsHandshakeError => "ERR_TLS_HANDSHAKE_ERROR"@,
        NetworkErrorType::HttpProtocolError => "ERR_HTTP_PROTOCOL_ERROR"@,
        NetworkErrorType::NetworkUnreachable => "ERR_NETWORK_UNREACHABLE"@,
        NetworkErrorType::RequestTimeout => "ERR_REQUEST_TIMEOUT"@,
        NetworkErrorType::ResponseBodyError => "ERR_RESPONSE_BODY_ERROR"@,
        NetworkErrorType::DownloadStalled => "ERR_DOWNLOAD_STALLED"@,
        NetworkErrorType::DownloadTooSlow => "ERR_DOWNLOAD_TOO_SLOW"@,
        NetworkErrorType::Other(_) => "ERR_NETWORK_OTHER"@,
    }
}

fn error_code_exec(t: &NetworkErrorType) -> (r: &'static str)
    ensures
        r@ == error_code(*t),
{
    match t {
        NetworkErrorType::ConnectionReset => "ERR_CONNECTION_RESET",
        NetworkErrorType::ConnectionTimeout => "ERR_CONNECTION_TIMEOUT",
        NetworkErrorType::StreamError => "ERR_STREAM_ERROR",
        NetworkErrorType::DnsResolutionFailed => "ERR_DNS_RESOLUTION_FAILED",
        NetworkErrorType::TlsHandshakeError => "ERR_TLS_HANDSHAKE_ERROR",
        NetworkErrorType::HttpProtocolError => "ERR_HTTP_PROTOCOL_ERROR",
        NetworkErrorType::NetworkUnreachable => "ERR_NETWORK_UNREACHABLE",
        NetworkErrorType::RequestTimeout => "ERR_REQUEST_TIMEOUT",
        NetworkErrorType::ResponseBodyError => "ERR_RESPONSE_BODY_ERROR",
        NetworkErrorType::DownloadStalled => "ERR_DOWNLOAD_STALLED",
        NetworkErrorType::DownloadTooSlow => "ERR_DOWNLOAD_TOO_SLOW",
        NetworkErrorType::Other(_) => "ERR_NETWORK_OTHER",
    }
}

/// The failure type an error message shows, judged on its lowercase form;
/// `None` when it shows none (the type is then `Other`).
pub open spec fn classify_spec(msg: Seq<char>) -> Option<NetworkErrorType> {
    let s = lowercase(msg);
    if contains(s, "connection reset"@) || contains(s, "connection was reset"@) {
        Some(NetworkErrorType::ConnectionReset)
    } else if contains(s, "download_stalled"@) {
        Some(NetworkErrorType::DownloadStalled)
    } else if contains(s, "download_too_slow"@) {
        Some(NetworkErrorType::DownloadTooSlow)
    } else if contains(s, "timed out"@) || contains(s, "timeout"@) {
        if contains(s, "connect"@) || contains(s, "connection"@) {
            Some(NetworkErrorType::ConnectionTimeout)
        } else {
            Some(NetworkErrorType::RequestTimeout)
        }
    } else if contains(s, "stream error"@) || contains(s, "unexpected internal error"@) {
        Some(NetworkErrorType::StreamError)
    } else if contains(s, "dns"@) || contains(s, "name resolution"@) {
        Some(NetworkErrorType::DnsResolutionFailed)
    } else if contains(s, "tls"@) || contains(s, "ssl"@) || contains(s, "handshake"@) {
        Some(NetworkErrorType::TlsHandshakeError)
    } else if contains(s, "http"@) && (contains(s, "protocol"@) || contains(s, "invalid"@)) {
        Some(NetworkErrorType::HttpProtocolError)
    } else if contains(s, "network unreachable"@) || contains(s, "no route"@) {
        Some(NetworkErrorType::NetworkUnreachable)
    } else if contains(s, "error decoding response body"@) || contains(s, "response body error"@) {
        Some(NetworkErrorType::ResponseBodyError)
    } else {
        None
    }
}

impl ClassifiedNetworkError {
    /// A failure of the given type, with the type's error code.
    pub fn new(
        error_type: NetworkErrorType,
        original_error: String,
        url: String,
        range: Vec<(u32, u32)>,
    ) -> (r: ClassifiedNetworkError)
        ensures
            r.error_type == error_type,
            r.original_error == original_error,
            r.context@ == error_code(error_type),
            r.url == url,
            r.range == range,
    {
        let context = String::from_str(error_code_exec(&error_type));
        ClassifiedNetworkError { error_type, original_error, context, url, range }
    }

    /// Sorts an error by its message.
    pub fn classify_error(error: &str) -> (r: NetworkErrorType)
        ensures
            match classify_spec(error@) {
                Some(t) => r == t,
                None => r is Other && r->Other_0@ == error@,
            },
    {
        let s = lower(error);
        let s = s.as_str();
        if str_contains(s, "connection reset") || str_contains(s, "connection was reset") {
            NetworkErrorType::ConnectionReset
        } else if str_contains(s, "download_stalled") {
            NetworkErrorType::DownloadStalled
        } else if str_contains(s, "download_too_slow") {
            NetworkErrorType::DownloadTooSlow
        } else if str_contains(s, "timed out") || str_contains(s, "timeout") {
            if str_contains(s, "connect") || str_contains(s, "connection") {
                NetworkErrorType::ConnectionTimeout
            } else {
                NetworkErrorType::RequestTimeout
            }
        } else if str_contains(s, "stream error") || str_contains(s, "unexpected internal error") {
            NetworkErrorType::StreamError
        } else if str_contains(s, "dns") || str_contains(s, "name resolution") {
            NetworkErrorType::DnsResolutionFailed
        } else if str_contains(s, "tls") || str_contains(s, "ssl") || str_contains(s, "handshake") {
            NetworkErrorType::TlsHandshakeError
        } else if str_contains(s, "http") && (str_contains(s, "protocol") || str_contains(s, "invalid")) {
            NetworkErrorType::HttpProtocolError
        } else if str_contains(s, "network unreachable") || str_contains(s, "no route") {
            NetworkErrorType::NetworkUnreachable
        } else if str_contains(s, "error decoding response body") || str_contains(s, "response body error") {
            NetworkErrorType::ResponseBodyError
        } else {
            NetworkErrorType::Other(String::from_str(error))
        }
    }
}

/// `s` without leading and trailing whitespace, as `str::trim` gives it.
pub open spec fn trim_ws(s: Seq<char>) -> Seq<char> {
    trim_end_ws(trim_start_ws(s))
}

/// One `start-end` part of a range list; an empty end is open (`u32::MAX`).
pub open spec fn range_part(part: Seq<char>) -> Option<(u32, u32)> {
    let t = trim_ws(part);
    match first_index(t, '-') {
        None => None,
        Some(k) => match parse_unsigned(t.take(k), u32::MAX as nat) {
            None => None,
            Some(a) => if t.skip(k + 1).len() == 0 {
                Some((a as u32, u32::MAX))
            } else {
                match parse_unsigned(t.skip(k + 1), u32::MAX as nat) {
                    Some(b) => Some((a as u32, b as u32)),
                    None => None,
                }
            },
        },
    }
}

/// The readable parts of a comma-separated range list, in order.
pub open spec fn ranges_spec(parts: Seq<Seq<char>>) -> Seq<(u32, u32)>
    decreases parts.len(),
{
    if parts.len() == 0 {
        Seq::empty()
    } else {
        ranges_spec(parts.drop_last()) + match range_part(parts.last()) {
            Some(r) => seq![r],
            None => Seq::empty(),
        }
    }
}

fn parse_range_part(part: &[char]) -> (r: Option<(u32, u32)>)
    ensures
        r == range_part(part@),
{
    let t0 = trim_start_ws_exec(part);
    let t = trim_end_ws_exec(&t0);
    match find_char(&t, '-') {
        None => None,
        Some(k) => {
            assert(t@.take(k as int) == t@.subrange(0, k as int));
            assert(t@.skip(k + 1) == t@.subrange(k + 1, t.len() as int));
            let start = slice_chars(&t, 0, k);
            let end = slice_chars(&t, k + 1, t.len());
            match parse_u32(&start) {
                None => None,
                Some(a) => if end.len() == 0 {
                    Some((a, u32::MAX))
                } else {
                    match parse_u32(&end) {
                        Some(b) => Some((a, b)),
                        None => None,
                    }
                },
            }
        },
    }
}

/// The ranges of an HTTP `Range` value (`0-99,200-`), skipping parts that
/// do not read.
pub fn parse_range_string(range: &str) -> (r: Vec<(u32, u32)>)
    ensures
        r@ == ranges_spec(split_on(range@, ',')),
{
    let cs = chars_of(range);
    let parts = split_chars(&cs, ',');
    let ghost pv = split_on(range@, ',');
    let mut out: Vec<(u32, u32)> = Vec::new();
    let mut i: usize = 0;
    while i < parts.len()
        invariant
            i <= parts.len(),
            parts@.len() == pv.len(),
            forall|k: int| 0 <= k < pv.len() ==> #[trigger] parts@[k]@ == pv[k],
            out@ == ranges_spec(pv.take(i as int)),
        decreases parts.len() - i,
    {
        let ghost t = pv.take(i as int + 1);
        assert(t.drop_last() == pv.take(i as int));
        assert(t.last() == parts@[i as int]@);
        match parse_range_part(&parts[i]) {
            Some(r) => {
                out.push(r);
                assert(out@ =~= ranges_spec(t));
            },
            None => {
                assert(ranges_spec(t) =~= ranges_spec(pv.take(i as int)));
            },
        }
        i += 1;
    }
    assert(pv.take(parts.len() as int) == pv);
    out
}

/// The ranges an insight record shows for a request: none without a size;
/// the requested range list when it reads; else the one range the offset
/// and size cover.
pub fn insight_range_vec(request_range: Option<&str>, offset: usize, size: usize) -> (r: Vec<(u32, u32)>)
    requires
        size == 0 || offset + size - 1 <= usize::MAX,
    ensures
        size == 0 ==> r@ == Seq::<(u32, u32)>::empty(),
        size > 0 ==> r@ == match request_range {
            Some(s) if ranges_spec(split_on(s@, ',')).len() > 0 => ranges_spec(split_on(s@, ',')),
            _ => seq![(offset as u32, (offset + size - 1) as u32)],
        },
{
    if size == 0 {
        return Vec::new();
    }
    if let Some(range) = request_range {
        let parsed = parse_range_string(range);
        if parsed.len() > 0 {
            return parsed;
        }
    }
    let mut v: Vec<(u32, u32)> = Vec::new();
    v.push((offset as u32, (offset + (size - 1)) as u32));
    v
}

/// The stall and slow-download detector of one response.
#[derive(Clone, Copy, Debug, PartialEq, Eq, Structural)]
pub struct DownloadHealth {
    /// The response's size, when known.
    pub content_length: Option<u64>,
    /// When the last 5-second stall check passed (ms).
    pub last_stall_check_ms: u64,
    /// Bytes received by then.
    pub last_stall_check_bytes: u64,
    /// When the current 30-second slow window started (ms), if one runs.
    pub slow_detection_start_ms: Option<u64>,
    /// Bytes received when it started.
    pub slow_window_start_bytes: u64,
}

/// The milliseconds from `earlier` to `now`; none when `earlier` is later.
pub open spec fn since(now: u64, earlier: u64) -> int {
    if now >= earlier {
        now - earlier
    } else {
        0
    }
}

pub open spec fn stall_window_ms() -> int {
    5000
}

pub open spec fn stall_min_bytes() -> int {
    5120
}

pub open spec fn slow_window_ms() -> int {
    30000
}

pub open spec fn slow_min_size() -> int {
    10485760
}

pub open spec fn slow_min_rate() -> int {
    102400
}

/// One health check with `current` bytes received at `now`: a download that
/// got less than 5 KiB in 5 seconds has stalled; one of over 10 MiB that is
/// not yet half done and averaged under 100 KiB/s over 30 seconds is too
/// slow. Otherwise the windows move on.
pub open spec fn health_next(h: DownloadHealth, current: u64, now: u64) -> (DownloadHealth, Option<NetworkErrorType>) {
    if since(now, h.last_stall_check_ms) >= stall_window_ms() && current - h.last_stall_check_bytes < stall_min_bytes() {
        (h, Some(NetworkErrorType::DownloadStalled))
    } else {
        let h1 = if since(now, h.last_stall_check_ms) >= stall_window_ms() {
            DownloadHealth { last_stall_check_ms: now, last_stall_check_bytes: current, ..h }
        } else {
            h
        };
        match h1.content_length {
            Some(total) if total > slow_min_size() => if current * 2 < total {
                match h1.slow_detection_start_ms {
                    None => (
                        DownloadHealth {
                            slow_detection_start_ms: Some(now),
                            slow_window_start_bytes: current,
                            ..h1
                        },
                        None,
                    ),
                    Some(start) => if since(now, start) >= slow_window_ms() {
                        if (current - h1.slow_window_start_bytes) / 30 < slow_min_rate() {
                            (h1, Some(NetworkErrorType::DownloadTooSlow))
                        } else {
                            (
                                DownloadHealth {
                                    slow_detection_start_ms: Some(now),
                                    slow_window_start_bytes: current,
                                    ..h1
                                },
                                None,
                            )
                        }
                    } else {
                        (h1, None)
                    },
                }
            } else {
                (DownloadHealth { slow_detection_start_ms: None, ..h1 }, None)
            },
            _ => (h1, None),
        }
    }
}

fn elapsed(now: u64, earlier: u64) -> (r: u64)
    ensures
        r == since(now, earlier),
{
    if now >= earlier {
        now - earlier
    } else {
        0
    }
}

pub open spec fn opt_text_view(o: Option<String>) -> Option<Seq<char>> {
    match o {
        Some(s) => Some(s@),
        None => None,
    }
}

fn clone_opt(o: &Option<String>) -> (r: Option<String>)
    ensures
        opt_text_view(r) == opt_text_view(*o),
{
    match o {
        Some(s) => Some(s.clone()),
        None => None,
    }
}

/// Two insight records hold the same values.
pub open spec fn same_insight(a: InsightItem, b: InsightItem) -> bool {
    &&& a.url@ == b.url@
    &&& a.ttfb == b.ttfb
    &&& a.time == b.time
    &&& a.size == b.size
    &&& a.range@ == b.range@
    &&& opt_text_view(a.error) == opt_text_view(b.error)
    &&& opt_text_view(a.mode) == opt_text_view(b.mode)
}

/// A copy of an insight record.
pub fn copy_insight(i: &InsightItem) -> (r: InsightItem)
    ensures
        same_insight(r, *i),
{
    InsightItem {
        url: i.url.clone(),
        ttfb: i.ttfb,
        time: i.time,
        size: i.size,
        range: copy_ranges(&i.range),
        error: clone_opt(&i.error),
        mode: clone_opt(&i.mode),
    }
}

/// A copy of a list of ranges.
pub fn copy_ranges(v: &Vec<(u32, u32)>) -> (r: Vec<(u32, u32)>)
    ensures
        r@ == v@,
{
    let mut r: Vec<(u32, u32)> = Vec::new();
    let mut i: usize = 0;
    while i < v.len()
        invariant
            i <= v.len(),
            r@ == v@.take(i as int),
        decreases v.len() - i,
    {
        r.push(v[i]);
        i += 1;
        assert(v@.take(i as int) == v@.take(i - 1 as int).push(v@[i - 1 as int]));
    }
    assert(v@.take(v.len() as int) == v@);
    r
}

/// A response body being read, with its insight record and health checks.
pub struct NetworkInsightStream<S> {
    pub inner: S,
    pub insight: InsightItem,
    pub network_bytes: u64,
    pub url: String,
    pub range: Vec<(u32, u32)>,
    pub health: DownloadHealth,
}

impl<S> NetworkInsightStream<S> {
    /// The byte counts the windows started at were never above the bytes
    /// received.
    pub open spec fn wf(&self) -> bool {
        &&& self.health.last_stall_check_bytes <= self.network_bytes
        &&& self.health.slow_window_start_bytes <= self.network_bytes
    }

    /// Wraps a response body without slow-download detection. `url` is the
    /// address as it may be logged, `ttfb_ms` the time to the first byte,
    /// `now_ms` the present.
    pub fn new(stream: S, url: String, range: Vec<(u32, u32)>, ttfb_ms: u32, now_ms: u64) -> (r: Self)
        ensures
            r.wf(),
            r.inner == stream,
            r.network_bytes == 0,
            r.insight.url@ == url@,
            r.insight.ttfb == ttfb_ms,
            r.insight.time == 0,
            r.insight.size == 0,
            r.insight.error is None,
            r.insight.mode is None,
            r.insight.range@ == range@,
            r.url == url,
            r.range == range,
            r.health == (DownloadHealth {
                content_length: None,
                last_stall_check_ms: now_ms,
                last_stall_check_bytes: 0,
                slow_detection_start_ms: None,
                slow_window_start_bytes: 0,
            }),
    {
        Self::new_with_detection(stream, url, range, ttfb_ms, now_ms, None)
    }

    /// Wraps a response body; a known `content_length` turns on
    /// slow-download detection.
    pub fn new_with_detection(
        stream: S,
        url: String,
        range: Vec<(u32, u32)>,
        ttfb_ms: u32,
        now_ms: u64,
        content_length: Option<u64>,
    ) -> (r: Self)
        ensures
            r.wf(),
            r.inner == stream,
            r.network_bytes == 0,
            r.insight.url@ == url@,
            r.insight.ttfb == ttfb_ms,
            r.insight.time == 0,
            r.insight.size == 0,
            r.insight.error is None,
            r.insight.mode is None,
            r.insight.range@ == range@,
            r.url == url,
            r.range == range,
            r.health == (DownloadHealth {
                content_length,
                last_stall_check_ms: now_ms,
                last_stall_check_bytes: 0,
                slow_detection_start_ms: None,
                slow_window_start_bytes: 0,
            }),
    {
        let insight = InsightItem {
            url: url.clone(),
            ttfb: ttfb_ms,
            time: 0,
            size: 0,
            error: None,
            range: copy_ranges(&range),
            mode: None,
        };
        NetworkInsightStream {
            inner: stream,
            insight,
            network_bytes: 0,
            url,
            range,
            health: DownloadHealth {
                content_length,
                last_stall_check_ms: now_ms,
                last_stall_check_bytes: 0,
                slow_detection_start_ms: None,
                slow_window_start_bytes: 0,
            },
        }
    }

    /// A copy of the insight record as it stands.
    pub fn get_insight_snapshot(&self) -> (r: InsightItem)
        ensures
            r.url@ == self.insight.url@,
            r.ttfb == self.insight.ttfb,
            r.time == self.insight.time,
            r.size == self.insight.size,
            r.range@ == self.insight.range@,
            opt_text_view(r.error) == opt_text_view(self.insight.error),
            opt_text_view(r.mode) == opt_text_view(self.insight.mode),
    {
        InsightItem {
            url: self.insight.url.clone(),
            ttfb: self.insight.ttfb,
            time: self.insight.time,
            size: self.insight.size,
            range: copy_ranges(&self.insight.range),
            error: clone_opt(&self.insight.error),
            mode: clone_opt(&self.insight.mode),
        }
    }

    /// Checks the download's health at `now_ms`; a stalled or too slow
    /// download is a failure.
    pub fn check_download_health(&mut self, now_ms: u64) -> (r: Result<(), ClassifiedNetworkError>)
        requires
            old(self).wf(),
        ensures
            final(self).wf(),
            final(self).health == health_next(old(self).health, old(self).network_bytes, now_ms).0,
            final(self).network_bytes == old(self).network_bytes,
            final(self).insight == old(self).insight,
            final(self).url == old(self).url,
            final(self).range == old(self).range,
            final(self).inner == old(self).inner,
            match health_next(old(self).health, old(self).network_bytes, now_ms).1 {
                Some(t) => r is Err && r->Err_0.error_type == t && r->Err_0.context@ == error_code(t)
                    && r->Err_0.url@ == old(self).url@ && r->Err_0.range@ == old(self).range@
                    && r->Err_0.original_error@ == (if t == NetworkErrorType::DownloadStalled {
                        DOWNLOAD_STALLED@
                    } else {
                        DOWNLOAD_TOO_SLOW@
                    }),
                None => r is Ok,
            },
    {
        let current = self.network_bytes;
        let h = self.health;
        if elapsed(now_ms, h.last_stall_check_ms) >= 5000 {
            let progress = current - h.last_stall_check_bytes;
            if progress < 5120 {
                return Err(ClassifiedNetworkError::new(
                    NetworkErrorType::DownloadStalled,
                    String::from_str(DOWNLOAD_STALLED),
                    self.url.clone(),
                    copy_ranges(&self.range),
                ));
            }
            self.health.last_stall_check_ms = now_ms;
            self.health.last_stall_check_bytes = current;
        }
        if let Some(total) = self.health.content_length {
            if total > 10485760 {
                if (current as u128) * 2 < total as u128 {
                    match self.health.slow_detection_start_ms {
                        None => {
                            self.health.slow_detection_start_ms = Some(now_ms);
                            self.health.slow_window_start_bytes = current;
                        },
                        Some(start) => {
                            if elapsed(now_ms, start) >= 30000 {
                                let window_progress = current - self.health.slow_window_start_bytes;
                                let avg_speed = window_progress / 30;
                                if avg_speed < 102400 {
                                    return Err(ClassifiedNetworkError::new(
                                        NetworkErrorType::DownloadTooSlow,
                                        String::from_str(DOWNLOAD_TOO_SLOW),
                                        self.url.clone(),
                                        copy_ranges(&self.range),
                                    ));
                                }
                                self.health.slow_detection_start_ms = Some(now_ms);
                                self.health.slow_window_start_bytes = current;
                            }
                        },
                    }
                } else {
                    self.health.slow_detection_start_ms = None;
                }
            }
        }
        Ok(())
    }

    /// Counts `n` more bytes received, `elapsed_ms` after the response
    /// arrived, and checks the download's health at `now_ms`.
    pub fn record_bytes(&mut self, n: u64, elapsed_ms: u32, now_ms: u64) -> (r: Result<(), ClassifiedNetworkError>)
        requires
            old(self).wf(),
            old(self).network_bytes + n <= u64::MAX,
        ensures
            final(self).wf(),
            final(self).network_bytes == old(self).network_bytes + n,
            final(self).insight.size == (old(self).network_bytes + n) as u32,
            final(self).insight.time == elapsed_ms,
            final(self).health == health_next(old(self).health, (old(self).network_bytes + n) as u64, now_ms).0,
            r is Err <==> health_next(old(self).health, (old(self).network_bytes + n) as u64, now_ms).1 is Some,
    {
        self.network_bytes = self.network_bytes + n;
        self.insight.size = self.network_bytes as u32;
        self.insight.time = elapsed_ms;
        self.check_download_health(now_ms)
    }

    /// Records a failure in the insight record: its code, the time and the
    /// bytes received.
    pub fn mark_error(&mut self, code: String, elapsed_ms: u32)
        ensures
            final(self).insight.error == Some(code),
            final(self).insight.time == elapsed_ms,
            final(self).insight.size == old(self).network_bytes as u32,
            final(self).network_bytes == old(self).network_bytes,
            final(self).health == old(self).health,
            final(self).inner == old(self).inner,
    {
        self.insight.error = Some(code);
        self.insight.time = elapsed_ms;
        self.insight.size = self.network_bytes as u32;
    }
}

/// A download that received at least 5 KiB since the last stall check is
/// never reported stalled.
pub proof fn lemma_progress_never_stalled(h: DownloadHealth, current: u64, now: u64)
    requires
        current >= h.last_stall_check_bytes + stall_min_bytes(),
    ensures
        health_next(h, current, now).1 != Some(NetworkErrorType::DownloadStalled),
{
}

/// A download of unknown size, or of at most 10 MiB, is never reported too
/// slow, and one that is half done stops its slow window.
pub proof fn lemma_small_or_half_done_never_slow(h: DownloadHealth, current: u64, now: u64)
    requires
        match h.content_length {
            None => true,
            Some(total) => total <= slow_min_size() || current * 2 >= total,
        },
    ensures
        health_next(h, current, now).1 != Some(NetworkErrorType::DownloadTooSlow),
        (h.content_length matches Some(total) && total > slow_min_size() && current * 2 >= total)
            ==> health_next(h, current, now).0.slow_detection_start_ms is None || health_next(h, current, now).1 is Some,
{
}


/// A download that averaged at least 100 KiB/s since its slow window
/// started is never reported too slow; when that window has run its 30
/// seconds (and the download neither stalled nor is half done), a new
/// window starts where it is now.
pub proof fn lemma_fast_enough_never_slow(h: DownloadHealth, current: u64, now: u64)
    requires
        current >= h.slow_window_start_bytes + 30 * 102400,
    ensures
        health_next(h, current, now).1 != Some(NetworkErrorType::DownloadTooSlow),
        (h.slow_detection_start_ms is Some && since(now, h.slow_detection_start_ms->Some_0) >= 30000
            && h.content_length is Some && h.content_length->Some_0 > 10485760
            && current * 2 < h.content_length->Some_0 && health_next(h, current, now).1 is None) ==> health_next(h, current, now).0.slow_detection_start_ms
            == Some(now) && health_next(h, current, now).0.slow_window_start_bytes == current,
{
}

} // verus!
