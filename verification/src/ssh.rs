//! HTTP through an SSH tunnel: reading the tunnel's parameters from a URL
//! of the form
//! `ssh+http://ssh_host:ssh_port/path?query#user=..&pass=..&fingerprint=..&internal_host=..&internal_port=..`.
//! The credentials live in the fragment because HTTP clients strip a URL's
//! user info.

use vstd::prelude::*;
use vstd::utf8::{decode_utf8, encode_utf8, valid_utf8};
use crate::challenge::{hex_bytes, hex_lower};
use crate::lookup::TextMap;
use crate::text::{
    ascii_down, char_ascii_down, chars_eq, chars_of, decimal, find_char, first_index, slice_chars,
    split_chars, split_on, string_of, u64_text, parse_unsigned, parse_u32,
};
use vstd::string::StringExecFns;

verus! {

/// A URL's components, as a URL parser reports them.
#[derive(Clone, Debug, PartialEq, Eq)]
pub struct UrlParts {
    pub scheme: String,
    pub host: Option<String>,
    pub port: Option<u16>,
    pub path: String,
    pub query: Option<String>,
    pub fragment: Option<String>,
}

/// The tunnel's parameters.
#[derive(Clone, Debug, PartialEq, Eq)]
pub struct SshUrlParts {
    pub ssh_user: String,
    pub ssh_pass: String,
    pub ssh_host: String,
    pub ssh_port: u16,
    /// The SHA-256 host key fingerprint, 64 lowercase hex digits.
    pub fingerprint: String,
    pub internal_host: String,
    pub internal_port: u16,
    /// The request's path and query, e.g. `/api/v1?foo=bar`.
    pub http_path_and_query: String,
}

pub open spec fn is_hex(c: char) -> bool {
    ('0' <= c && c <= '9') || ('a' <= c && c <= 'f') || ('A' <= c && c <= 'F')
}

/// The hex digits of `s`, in order.
pub open spec fn hex_only(s: Seq<char>) -> Seq<char>
    decreases s.len(),
{
    if s.len() == 0 {
        Seq::empty()
    } else {
        hex_only(s.drop_last()) + if is_hex(s.last()) { seq![s.last()] } else { Seq::empty() }
    }
}

/// A fingerprint without separators (colons, spaces, ...), lowercase.
pub open spec fn normalize_hex_spec(s: Seq<char>) -> Seq<char> {
    hex_only(s).map_values(|c: char| ascii_down(c))
}

/// A fingerprint without separators, lowercase.
pub fn normalize_hex(s: &str) -> (r: String)
    ensures
        r@ == normalize_hex_spec(s@),
{
    let cs = chars_of(s);
    let mut out: Vec<char> = Vec::new();
    let mut i: usize = 0;
    while i < cs.len()
        invariant
            i <= cs.len(),
            cs@ == s@,
            out@ == normalize_hex_spec(cs@.take(i as int)),
        decreases cs.len() - i,
    {
        let c = cs[i];
        let ghost t = cs@.take(i as int + 1);
        assert(t.drop_last() == cs@.take(i as int));
        assert(t.last() == c);
        if ('0' <= c && c <= '9') || ('a' <= c && c <= 'f') || ('A' <= c && c <= 'F') {
            out.push(char_ascii_down(c));
            assert(out@ =~= normalize_hex_spec(t));
        } else {
            assert(out@ =~= normalize_hex_spec(t));
        }
        i += 1;
    }
    assert(cs@.take(cs.len() as int) == cs@);
    string_of(&out)
}

/// The `Host` header: the internal host (bracketed when it holds a `:`),
/// with the port unless it is 80.
pub open spec fn host_header_spec(p: SshUrlParts) -> Seq<char> {
    let host = if exists|i: int| 0 <= i < p.internal_host@.len() && p.internal_host@[i] == ':' {
        seq!['['] + p.internal_host@ + seq![']']
    } else {
        p.internal_host@
    };
    if p.internal_port == 80 {
        host
    } else {
        host + seq![':'] + decimal(p.internal_port as nat)
    }
}

impl SshUrlParts {
    /// The HTTP `Host` header value.
    pub fn http_host_header(&self) -> (r: String)
        ensures
            r@ == host_header_spec(*self),
    {
        let hc = chars_of(self.internal_host.as_str());
        let mut host = match find_char(&hc, ':') {
            Some(k) => {
                let mut s = String::from_str("[");
                s.append(self.internal_host.as_str());
                s.append("]");
                proof {
                    reveal_strlit("[");
                    reveal_strlit("]");
                    lemma_first_index_at(hc@, ':');
                    assert(hc@[k as int] == ':');
                    assert(s@ =~= seq!['['] + self.internal_host@ + seq![']']);
                }
                s
            },
            None => {
                proof {
                    lemma_no_index(hc@, ':');
                }
                self.internal_host.clone()
            },
        };
        if self.internal_port == 80 {
            host
        } else {
            host.push(':');
            host.append(u64_text(self.internal_port as u64).as_str());
            host
        }
    }

    /// The tunnel's end as `user@host:port`, for messages.
    pub fn ssh_target(&self) -> (r: String)
        ensures
            r@ == self.ssh_user@ + seq!['@'] + self.ssh_host@ + seq![':'] + decimal(self.ssh_port as nat),
    {
        let mut s = self.ssh_user.clone();
        s.push('@');
        s.append(self.ssh_host.as_str());
        s.push(':');
        s.append(u64_text(self.ssh_port as u64).as_str());
        s
    }
}

proof fn lemma_first_index_at(s: Seq<char>, c: char)
    requires
        first_index(s, c) is Some,
    ensures
        0 <= first_index(s, c)->Some_0 < s.len(),
        s[first_index(s, c)->Some_0] == c,
    decreases s.len(),
{
    if s.len() > 0 && s[0] != c {
        lemma_first_index_at(s.skip(1), c);
    }
}

proof fn lemma_no_index(s: Seq<char>, c: char)
    requires
        first_index(s, c) is None,
    ensures
        !(exists|i: int| 0 <= i < s.len() && s[i] == c),
    decreases s.len(),
{
    if s.len() > 0 {
        lemma_no_index(s.skip(1), c);
        assert forall|i: int| 0 <= i < s.len() implies s[i] != c by {
            if i > 0 {
                assert(s.skip(1)[i - 1] == s[i]);
            }
        }
    }
}

pub open spec fn hex_value(b: u8) -> Option<nat> {
    if 0x30 <= b && b <= 0x39 {
        Some((b - 0x30) as nat)
    } else if 0x61 <= b && b <= 0x66 {
        Some((b - 0x61 + 10) as nat)
    } else if 0x41 <= b && b <= 0x46 {
        Some((b - 0x41 + 10) as nat)
    } else {
        None
    }
}

/// The byte two characters after a `%` stand for, as `u8::from_str_radix(_,
/// 16)` reads them: two hex digits, or `+` and one hex digit.
pub open spec fn escape_value(a: u8, b: u8) -> Option<u8> {
    if a == 0x2b {
        match hex_value(b) {
            Some(v) => Some(v as u8),
            None => None,
        }
    } else {
        match (hex_value(a), hex_value(b)) {
            (Some(x), Some(y)) => Some((x * 16 + y) as u8),
            _ => None,
        }
    }
}

/// The bytes of `b` from `i` on with `%XX` escapes decoded; a `%` that
/// does not start an escape stays.
pub open spec fn unescape_from(b: Seq<u8>, i: int) -> Seq<u8>
    decreases b.len() - i,
{
    if i < 0 || i >= b.len() {
        Seq::empty()
    } else if b[i] == 0x25 && i + 2 < b.len() && escape_value(b[i + 1], b[i + 2]) is Some {
        seq![escape_value(b[i + 1], b[i + 2])->Some_0] + unescape_from(b, i + 3)
    } else {
        seq![b[i]] + unescape_from(b, i + 1)
    }
}

/// The message `String::from_utf8` gives for bytes that are not UTF-8.
pub uninterp spec fn utf8_error_text(bytes: Seq<u8>) -> Seq<char>;

/// `String::from_utf8`: the text of `bytes` when they are valid UTF-8,
/// else the error's message (named `utf8_error_text` of the bytes).
#[verifier::external_body]
fn utf8_text(bytes: Vec<u8>) -> (r: Result<String, String>)
    ensures
        match r {
            Ok(s) => valid_utf8(bytes@) && s@ == decode_utf8(bytes@),
            Err(m) => !valid_utf8(bytes@) && m@ == utf8_error_text(bytes@),
        },
{
    match String::from_utf8(bytes) {
        Ok(s) => Ok(s),
        Err(e) => Err(e.to_string()),
    }
}

fn hex_value_exec(b: u8) -> (r: Option<u8>)
    ensures
        match r {
            Some(v) => hex_value(b) == Some(v as nat),
            None => hex_value(b) is None,
        },
{
    if 0x30 <= b && b <= 0x39 {
        Some(b - 0x30)
    } else if 0x61 <= b && b <= 0x66 {
        Some(b - 0x61 + 10)
    } else if 0x41 <= b && b <= 0x46 {
        Some(b - 0x41 + 10)
    } else {
        None
    }
}

fn escape_value_exec(a: u8, b: u8) -> (r: Option<u8>)
    ensures
        r == escape_value(a, b),
{
    if a == 0x2b {
        hex_value_exec(b)
    } else {
        match (hex_value_exec(a), hex_value_exec(b)) {
            (Some(x), Some(y)) => Some(x * 16 + y),
            _ => None,
        }
    }
}

pub open spec fn percent_decode_spec(input: Seq<char>) -> Result<Seq<char>, Seq<char>> {
    let bytes = unescape_from(encode_utf8(input), 0);
    if valid_utf8(bytes) {
        Ok(decode_utf8(bytes))
    } else {
        Err("URL percent-decoded value is not valid UTF-8: "@ + utf8_error_text(bytes))
    }
}

/// Minimal percent-decoding for URL fragment components.
pub fn percent_decode(input: &str) -> (r: Result<String, String>)
    ensures
        match (r, percent_decode_spec(input@)) {
            (Ok(s), Ok(t)) => s@ == t,
            (Err(m), Err(n)) => m@ == n,
            _ => false,
        },
{
    let src = input.as_bytes();
    let mut out: Vec<u8> = Vec::new();
    let mut i: usize = 0;
    assert(src@ == encode_utf8(input@));
    while i < src.len()
        invariant
            i <= src.len(),
            out@ + unescape_from(src@, i as int) == unescape_from(src@, 0),
        decreases src.len() - i,
    {
        if src[i] == 0x25 && src.len() - i > 2 {
            if let Some(v) = escape_value_exec(src[i + 1], src[i + 2]) {
                let ghost before = out@;
                out.push(v);
                assert(out@ + unescape_from(src@, i + 3) =~= before + unescape_from(src@, i as int));
                i += 3;
                continue;
            }
        }
        let ghost before = out@;
        out.push(src[i]);
        assert(out@ + unescape_from(src@, i + 1) =~= before + unescape_from(src@, i as int));
        i += 1;
    }
    assert(out@ =~= unescape_from(src@, 0));
    match utf8_text(out) {
        Ok(s) => Ok(s),
        Err(e) => {
            let mut m = String::from_str("URL percent-decoded value is not valid UTF-8: ");
            m.append(e.as_str());
            Err(m)
        },
    }
}

/// The fragment's `key=value` pairs, values decoded, later keys winning;
/// a piece without `=` is skipped. The first value that does not decode
/// ends the reading with its error.
pub open spec fn fragment_map(pieces: Seq<Seq<char>>) -> Result<Map<Seq<char>, Seq<char>>, Seq<char>>
    decreases pieces.len(),
{
    if pieces.len() == 0 {
        Ok(Map::empty())
    } else {
        match fragment_map(pieces.drop_last()) {
            Err(e) => Err(e),
            Ok(m) => {
                let p = pieces.last();
                match first_index(p, '=') {
                    None => Ok(m),
                    Some(k) => match percent_decode_spec(p.skip(k + 1)) {
                        Ok(v) => Ok(m.insert(p.take(k), v)),
                        Err(e) => Err(e),
                    },
                }
            },
        }
    }
}

/// The tunnel parameters as plain values.
pub struct SshView {
    pub user: Seq<char>,
    pub pass: Seq<char>,
    pub host: Seq<char>,
    pub port: u16,
    pub fingerprint: Seq<char>,
    pub internal_host: Seq<char>,
    pub internal_port: u16,
    pub path_query: Seq<char>,
}

pub open spec fn ssh_view(p: SshUrlParts) -> SshView {
    SshView {
        user: p.ssh_user@,
        pass: p.ssh_pass@,
        host: p.ssh_host@,
        port: p.ssh_port,
        fingerprint: p.fingerprint@,
        internal_host: p.internal_host@,
        internal_port: p.internal_port,
        path_query: p.http_path_and_query@,
    }
}

/// A host without the brackets of an IPv6 literal.
pub open spec fn strip_brackets(h: Seq<char>) -> Seq<char> {
    if h.len() > 0 && h[0] == '[' && h.skip(1).len() > 0 && h.skip(1).last() == ']' {
        h.skip(1).drop_last()
    } else {
        h
    }
}

pub open spec fn opt_seq(o: Option<String>) -> Option<Seq<char>> {
    match o {
        Some(s) => Some(s@),
        None => None,
    }
}

/// A value that is there and not empty.
pub open spec fn present(m: Map<Seq<char>, Seq<char>>, k: Seq<char>) -> Option<Seq<char>> {
    if m.contains_key(k) && m[k].len() > 0 {
        Some(m[k])
    } else {
        None
    }
}

/// The tunnel parameters a URL gives, or the message of what is wrong.
pub open spec fn ssh_spec(u: UrlParts) -> Result<SshView, Seq<char>> {
    if u.scheme@ != "ssh+http"@ {
        Err("expected scheme 'ssh+http', got '"@ + u.scheme@ + "'"@)
    } else if u.host is None {
        Err("missing SSH host in URL"@)
    } else {
        let host = strip_brackets(u.host->Some_0@);
        let port: u16 = match u.port {
            Some(p) => p,
            None => 22,
        };
        if port == 0 {
            Err("invalid ssh_port 0 in URL"@)
        } else {
            let pq = match u.query {
                Some(q) => u.path@ + "?"@ + q@,
                None => u.path@,
            };
            let frag = match u.fragment {
                Some(f) => f@,
                None => Seq::empty(),
            };
            match fragment_map(split_on(frag, '&')) {
                Err(e) => Err(e),
                Ok(m) => match present(m, "user"@) {
                    None => Err("missing required 'user' in URL fragment"@),
                    Some(user) => match present(m, "fingerprint"@) {
                        None => Err(
                            "missing required 'fingerprint' in URL fragment for "@ + host + ":"@ + decimal(
                                port as nat,
                            ),
                        ),
                        Some(fp) => {
                            let fpn = normalize_hex_spec(fp);
                            if fpn.len() != 64 {
                                Err(
                                    "fingerprint must be 64 hex chars (SHA-256), got "@ + decimal(fpn.len())
                                        + " chars from '"@ + fp + "'"@,
                                )
                            } else {
                                let pass = if m.contains_key("pass"@) { m["pass"@] } else { Seq::empty() };
                                let ihost = match present(m, "internal_host"@) {
                                    Some(h) => h,
                                    None => "tunnel"@,
                                };
                                if m.contains_key("internal_port"@) {
                                    match parse_unsigned(m["internal_port"@], 65535) {
                                        None => Err("invalid internal_port '"@ + m["internal_port"@] + "' in URL fragment"@),
                                        Some(ip) => if ip == 0 {
                                            Err("invalid internal_port 0 in URL fragment"@)
                                        } else {
                                            Ok(
                                            SshView {
                                                user,
                                                pass,
                                                host,
                                                port,
                                                fingerprint: fpn,
                                                internal_host: ihost,
                                                internal_port: ip as u16,
                                                path_query: pq,
                                            },
                                        )
                                        },
                                    }
                                } else {
                                    Ok(
                                        SshView {
                                            user,
                                            pass,
                                            host,
                                            port,
                                            fingerprint: fpn,
                                            internal_host: ihost,
                                            internal_port: 80,
                                            path_query: pq,
                                        },
                                    )
                                }
                            }
                        },
                    },
                },
            }
        }
    }
}

proof fn lemma_fragment_error_stays(ps: Seq<Seq<char>>, n: int)
    requires
        0 <= n <= ps.len(),
        fragment_map(ps.take(n)) is Err,
    ensures
        fragment_map(ps) == fragment_map(ps.take(n)),
    decreases ps.len(),
{
    if n == ps.len() {
        assert(ps.take(n) =~= ps);
    } else {
        assert(ps.drop_last().take(n) =~= ps.take(n));
        lemma_fragment_error_stays(ps.drop_last(), n);
    }
}

/// The fragment's pairs as a map, or the first decoding error.
pub fn fragment_pairs(frag: &str) -> (r: Result<TextMap, String>)
    ensures
        match (r, fragment_map(split_on(frag@, '&'))) {
            (Ok(m), Ok(n)) => m@ == n,
            (Err(e), Err(f)) => e@ == f,
            _ => false,
        },
{
    let fc = chars_of(frag);
    let pieces = split_chars(&fc, '&');
    let ghost ps = split_on(frag@, '&');
    let mut map = TextMap::new();
    let mut i: usize = 0;
    assert(ps.take(0) =~= Seq::<Seq<char>>::empty());
    while i < pieces.len()
        invariant
            i <= pieces.len(),
            ps == split_on(frag@, '&'),
            pieces@.len() == ps.len(),
            forall|k: int| 0 <= k < pieces@.len() ==> #[trigger] pieces@[k]@ == ps[k],
            fragment_map(ps.take(i as int)) == Ok::<Map<Seq<char>, Seq<char>>, Seq<char>>(map@),
        decreases pieces.len() - i,
    {
        let p = &pieces[i];
        let ghost t = ps.take(i as int + 1);
        assert(t.drop_last() =~= ps.take(i as int));
        assert(t.last() == p@);
        match find_char(p, '=') {
            None => {},
            Some(k) => {
                let key = string_of(&slice_chars(p, 0, k));
                let raw = string_of(&slice_chars(p, k + 1, p.len()));
                assert(raw@ =~= p@.skip(k + 1));
                assert(key@ =~= p@.take(k as int));
                match percent_decode(raw.as_str()) {
                    Ok(v) => {
                        map.insert(key, v);
                    },
                    Err(e) => {
                        proof {
                            assert(fragment_map(t) == Err::<Map<Seq<char>, Seq<char>>, Seq<char>>(e@));
                            lemma_fragment_error_stays(ps, i as int + 1);
                        }
                        return Err(e);
                    },
                }
            },
        }
        i += 1;
    }
    assert(ps.take(pieces.len() as int) =~= ps);
    Ok(map)
}

/// The value of `k`, when it is there and not empty.
fn present_value(m: &TextMap, k: &str) -> (r: Option<String>)
    ensures
        opt_seq(r) == present(m@, k@),
{
    match m.get(k) {
        Some(v) => {
            if chars_of(v.as_str()).len() > 0 {
                Some(v.clone())
            } else {
                None
            }
        },
        None => None,
    }
}

/// A host without the brackets of an IPv6 literal.
pub fn strip_brackets_exec(h: &str) -> (r: String)
    ensures
        r@ == strip_brackets(h@),
{
    let hc = chars_of(h);
    let n = hc.len();
    if n > 1 && hc[0] == '[' && hc[n - 1] == ']' {
        let inner = slice_chars(&hc, 1, n - 1);
        assert(inner@ =~= h@.skip(1).drop_last());
        string_of(&inner)
    } else {
        proof {
            if h@.len() > 0 && h@[0] == '[' && h@.skip(1).len() > 0 {
                assert(h@.skip(1).last() == h@[n - 1]);
            }
        }
        String::from_str(h)
    }
}

/// An unsigned 16-bit decimal as `str::parse::<u16>` reads it.
pub fn parse_u16(s: &str) -> (r: Option<u16>)
    ensures
        match r {
            Some(v) => parse_unsigned(s@, 65535) == Some(v as nat),
            None => parse_unsigned(s@, 65535) is None,
        },
{
    let cs = chars_of(s);
    match parse_u32(&cs) {
        Some(v) => {
            if v <= 65535 {
                Some(v as u16)
            } else {
                None
            }
        },
        None => None,
    }
}

/// Reads the tunnel's parameters from a URL's components.
pub fn parse_ssh_url(u: &UrlParts) -> (r: Result<SshUrlParts, String>)
    ensures
        match (r, ssh_spec(*u)) {
            (Ok(p), Ok(v)) => ssh_view(p) == v,
            (Err(e), Err(f)) => e@ == f,
            _ => false,
        },
{
    let want = chars_of("ssh+http");
    if !chars_eq(&chars_of(u.scheme.as_str()), &want) {
        let mut m = String::from_str("expected scheme 'ssh+http', got '");
        m.append(u.scheme.as_str());
        m.append("'");
        return Err(m);
    }
    let raw_host = match &u.host {
        Some(h) => h,
        None => {
            return Err(String::from_str("missing SSH host in URL"));
        },
    };
    let ssh_host = strip_brackets_exec(raw_host.as_str());
    let ssh_port: u16 = match u.port {
        Some(p) => p,
        None => 22,
    };
    if ssh_port == 0 {
        return Err(String::from_str("invalid ssh_port 0 in URL"));
    }
    let http_path_and_query = match &u.query {
        Some(q) => {
            let mut t = u.path.clone();
            t.append("?");
            t.append(q.as_str());
            t
        },
        None => u.path.clone(),
    };
    let frag_str: &str = match &u.fragment {
        Some(f) => f.as_str(),
        None => {
            proof {
                reveal_strlit("");
            }
            ""
        },
    };
    let frag = match fragment_pairs(frag_str) {
        Ok(m) => m,
        Err(e) => {
            return Err(e);
        },
    };
    let ssh_user = match present_value(&frag, "user") {
        Some(v) => v,
        None => {
            return Err(String::from_str("missing required 'user' in URL fragment"));
        },
    };
    let fp = match present_value(&frag, "fingerprint") {
        Some(v) => v,
        None => {
            let mut m = String::from_str("missing required 'fingerprint' in URL fragment for ");
            m.append(ssh_host.as_str());
            m.append(":");
            m.append(u64_text(ssh_port as u64).as_str());
            return Err(m);
        },
    };
    let fp_norm = normalize_hex(fp.as_str());
    let fp_len = chars_of(fp_norm.as_str()).len();
    if fp_len != 64 {
        let mut m = String::from_str("fingerprint must be 64 hex chars (SHA-256), got ");
        m.append(u64_text(fp_len as u64).as_str());
        m.append(" chars from '");
        m.append(fp.as_str());
        m.append("'");
        return Err(m);
    }
    let ssh_pass = match frag.get("pass") {
        Some(v) => v.clone(),
        None => {
            proof {
                reveal_strlit("");
            }
            String::from_str("")
        },
    };
    let internal_host = match present_value(&frag, "internal_host") {
        Some(v) => v,
        None => String::from_str("tunnel"),
    };
    let internal_port: u16 = match frag.get("internal_port") {
        Some(s) => match parse_u16(s.as_str()) {
            Some(p) => p,
            None => {
                let mut m = String::from_str("invalid internal_port '");
                m.append(s.as_str());
                m.append("' in URL fragment");
                return Err(m);
            },
        },
        None => 80,
    };
    if internal_port == 0 {
        return Err(String::from_str("invalid internal_port 0 in URL fragment"));
    }
    assert(u.scheme@ == "ssh+http"@);
    assert(ssh_spec(*u) is Ok);
    assert(ssh_spec(*u)->Ok_0.user == ssh_user@);
    assert(ssh_spec(*u)->Ok_0.pass == ssh_pass@);
    assert(ssh_spec(*u)->Ok_0.host == ssh_host@);
    assert(ssh_spec(*u)->Ok_0.internal_host == internal_host@);
    assert(ssh_spec(*u)->Ok_0.internal_port == internal_port);
    assert(ssh_spec(*u)->Ok_0.path_query == http_path_and_query@);
    Ok(
        SshUrlParts {
            ssh_user,
            ssh_pass,
            ssh_host,
            ssh_port,
            fingerprint: fp_norm,
            internal_host,
            internal_port,
            http_path_and_query,
        },
    )
}

/// The headers that belong to one hop and are not passed through the tunnel.
pub open spec fn hop_by_hop(name: Seq<char>) -> bool {
    name == "connection"@ || name == "keep-alive"@ || name == "proxy-authenticate"@
        || name == "proxy-authorization"@ || name == "proxy-connection"@ || name == "te"@
        || name == "trailer"@ || name == "transfer-encoding"@ || name == "upgrade"@
}

fn text_is(a: &str, b: &str) -> (r: bool)
    ensures
        r == (a@ == b@),
{
    chars_eq(&chars_of(a), &chars_of(b))
}

/// Whether a request header (by its lowercase name) is forwarded through
/// the tunnel: `host` is replaced, hop-by-hop headers are dropped.
pub fn forwards_header(name: &str) -> (r: bool)
    ensures
        r == !(name@ == "host"@ || hop_by_hop(name@)),
{
    !(text_is(name, "host") || text_is(name, "connection") || text_is(name, "keep-alive")
        || text_is(name, "proxy-authenticate") || text_is(name, "proxy-authorization")
        || text_is(name, "proxy-connection") || text_is(name, "te") || text_is(name, "trailer")
        || text_is(name, "transfer-encoding") || text_is(name, "upgrade"))
}

/// Whether a server's SHA-256 host key fingerprint is the expected one:
/// its lowercase hex equals the expected text without separators, lowercased.
pub fn host_key_matches(fingerprint: &[u8], expected: &str) -> (r: bool)
    ensures
        r == (hex_bytes(fingerprint@) == normalize_hex_spec(expected@)),
{
    let actual = hex_lower(fingerprint);
    let want = normalize_hex(expected);
    chars_eq(&actual, &chars_of(want.as_str()))
}

proof fn lemma_hex_only_all_hex(t: Seq<char>)
    requires
        forall|i: int| 0 <= i < t.len() ==> is_hex(#[trigger] t[i]),
    ensures
        hex_only(t) == t,
    decreases t.len(),
{
    if t.len() > 0 {
        lemma_hex_only_all_hex(t.drop_last());
        assert(t.drop_last().push(t.last()) =~= t);
    }
}

proof fn lemma_hex_only_is_hex(s: Seq<char>)
    ensures
        forall|i: int| 0 <= i < hex_only(s).len() ==> is_hex(#[trigger] hex_only(s)[i]),
    decreases s.len(),
{
    if s.len() > 0 {
        lemma_hex_only_is_hex(s.drop_last());
        let h = hex_only(s.drop_last());
        assert forall|i: int| 0 <= i < hex_only(s).len() implies is_hex(#[trigger] hex_only(s)[i]) by {
            if i < h.len() {
                assert(hex_only(s)[i] == h[i]);
                assert(is_hex(h[i]));
            }
        }
    }
}

/// Normalizing a fingerprint twice gives what normalizing it once gives.
pub proof fn lemma_normalize_hex_idempotent(s: Seq<char>)
    ensures
        normalize_hex_spec(normalize_hex_spec(s)) == normalize_hex_spec(s),
{
    let n = normalize_hex_spec(s);
    lemma_hex_only_is_hex(s);
    assert forall|i: int| 0 <= i < n.len() implies is_hex(#[trigger] n[i]) by {
        assert(is_hex(hex_only(s)[i]));
    }
    lemma_hex_only_all_hex(n);
    assert(n.map_values(|c: char| ascii_down(c)) =~= n);
}

proof fn lemma_unescape_plain(b: Seq<u8>, i: int)
    requires
        0 <= i <= b.len(),
        forall|k: int| 0 <= k < b.len() ==> b[k] != 0x25,
    ensures
        unescape_from(b, i) == b.skip(i),
    decreases b.len() - i,
{
    if i < b.len() {
        lemma_unescape_plain(b, i + 1);
        assert(seq![b[i]] + b.skip(i + 1) =~= b.skip(i));
    } else {
        assert(b.skip(i) =~= Seq::<u8>::empty());
    }
}

/// A value with no `%` byte decodes to itself.
pub proof fn lemma_percent_decode_plain(input: Seq<char>)
    requires
        forall|k: int| 0 <= k < encode_utf8(input).len() ==> encode_utf8(input)[k] != 0x25,
    ensures
        percent_decode_spec(input) == Ok::<Seq<char>, Seq<char>>(input),
{
    let b = encode_utf8(input);
    lemma_unescape_plain(b, 0);
    assert(b.skip(0) =~= b);
    vstd::utf8::encode_utf8_valid_utf8(input);
    vstd::utf8::encode_utf8_decode_utf8(input);
}

} // verus!
