//! Install sources served by plugins: a source such as
//! `plugin-name+https://host/path` names the plugin in front of the scheme.

use vstd::prelude::*;
use crate::failure::{cause_message, hide_detail, ErrorChain, META_FAILED};
use crate::text::{chars_of, contains, find_exec, find_seq, last_index, rfind_char, slice_chars, str_contains, string_of, first_index, find_char, has_prefix, parse_u64, parse_unsigned, starts_with_chars, chars_eq};
use vstd::string::StringExecFns;

verus! {

pub open spec fn scheme_sep() -> Seq<char> {
    seq![':', '/', '/']
}

pub open spec fn plugin_tag() -> Seq<char> {
    seq!['p', 'l', 'u', 'g', 'i', 'n', '-']
}

/// The part of `s` before its first `c` (all of it when there is none), as
/// `s.split(c).next()` gives it.
pub open spec fn before_char(s: Seq<char>, c: char) -> Seq<char> {
    match first_index(s, c) {
        Some(i) => s.take(i),
        None => s,
    }
}

/// The plugin a source forces: the name after `plugin-` and before any `+`,
/// in front of the `://`.
pub open spec fn forced_plugin_spec(source: Seq<char>) -> Option<Seq<char>> {
    match find_seq(source, scheme_sep()) {
        None => None,
        Some(p) => {
            let before = source.take(p);
            match find_seq(before, plugin_tag()) {
                None => None,
                Some(idx) => {
                    let name = before_char(before.skip(idx + 7), '+');
                    if name.len() == 0 {
                        None
                    } else {
                        Some(name)
                    }
                },
            }
        },
    }
}

/// The URL a source points to, without its plugin prefix: `plugin-x+https://…`
/// and `a+b+https://…` give `https://…`; a bare `plugin-x://…` gives
/// `https://…`.
pub open spec fn clean_url_spec(source: Seq<char>) -> Seq<char> {
    match find_seq(source, scheme_sep()) {
        None => source,
        Some(p) => {
            let before = source.take(p);
            let after = source.skip(p);
            match find_seq(before, plugin_tag()) {
                Some(k) => {
                    let rest = before.skip(k + 7);
                    match first_index(rest, '+') {
                        Some(j) => if rest.skip(j + 1).len() == 0 {
                            "https"@ + after
                        } else {
                            rest.skip(j + 1) + after
                        },
                        None => "https"@ + after,
                    }
                },
                None => match last_index(before, '+') {
                    Some(i) => before.skip(i + 1) + after,
                    None => source,
                },
            }
        },
    }
}

fn concat_chars(a: &[char], b: &[char]) -> (r: String)
    ensures
        r@ == a@ + b@,
{
    let mut s = string_of(a);
    crate::text::push_chars(&mut s, b);
    s
}

/// The plugin a source forces, if any.
pub fn forced_plugin_name(source: &str) -> (r: Option<String>)
    ensures
        match r {
            Some(n) => forced_plugin_spec(source@) == Some(n@),
            None => forced_plugin_spec(source@) is None,
        },
{
    proof {
        reveal_strlit("://");
        reveal_strlit("plugin-");
        assert("://"@ =~= scheme_sep());
        assert("plugin-"@ =~= plugin_tag());
    }
    let cs = chars_of(source);
    let p = match find_exec(&cs, &chars_of("://")) {
        Some(p) => p,
        None => return None,
    };
    assert(cs@.take(p as int) == cs@.subrange(0, p as int));
    let before = slice_chars(&cs, 0, p);
    let idx = match find_exec(&before, &chars_of("plugin-")) {
        Some(i) => i,
        None => return None,
    };
    assert(before@.skip(idx + 7) == before@.subrange(idx + 7, before.len() as int));
    let rest = slice_chars(&before, idx + 7, before.len());
    let name = match find_char(&rest, '+') {
        Some(j) => {
            assert(rest@.take(j as int) == rest@.subrange(0, j as int));
            slice_chars(&rest, 0, j)
        },
        None => rest,
    };
    if name.len() == 0 {
        return None;
    }
    Some(string_of(&name))
}

/// The URL a source points to, without its plugin prefix.
pub fn clean_plugin_url(source: &str) -> (r: String)
    ensures
        r@ == clean_url_spec(source@),
{
    proof {
        reveal_strlit("://");
        reveal_strlit("plugin-");
        assert("://"@ =~= scheme_sep());
        assert("plugin-"@ =~= plugin_tag());
    }
    let cs = chars_of(source);
    let p = match find_exec(&cs, &chars_of("://")) {
        Some(p) => p,
        None => return String::from_str(source),
    };
    assert(cs@.take(p as int) == cs@.subrange(0, p as int));
    assert(cs@.skip(p as int) == cs@.subrange(p as int, cs.len() as int));
    let before = slice_chars(&cs, 0, p);
    let after = slice_chars(&cs, p, cs.len());
    match find_exec(&before, &chars_of("plugin-")) {
        Some(k) => {
            assert(before@.skip(k + 7) == before@.subrange(k + 7, before.len() as int));
            let rest = slice_chars(&before, k + 7, before.len());
            match find_char(&rest, '+') {
                Some(j) => {
                    assert(rest@.skip(j + 1) == rest@.subrange(j + 1, rest.len() as int));
                    let remaining = slice_chars(&rest, j + 1, rest.len());
                    if remaining.len() == 0 {
                        concat_chars(&chars_of("https"), &after)
                    } else {
                        concat_chars(&remaining, &after)
                    }
                },
                None => concat_chars(&chars_of("https"), &after),
            }
        },
        None => match rfind_char(&before, '+') {
            Some(i) => {
                assert(before@.skip(i + 1) == before@.subrange(i + 1, before.len() as int));
                concat_chars(&slice_chars(&before, i + 1, before.len()), &after)
            },
            None => String::from_str(source),
        },
    }
}

/// A GitHub release source whose file name holds the version placeholder.
pub fn is_github_source(source: &str) -> (r: bool)
    ensures
        r == (contains(clean_url_spec(source@), "github.com"@) && contains(
            clean_url_spec(source@),
            "${version}"@,
        )),
{
    let clean = clean_plugin_url(source);
    str_contains(clean.as_str(), "github.com") && str_contains(clean.as_str(), "${version}")
}

// ---------------------------------------------------------------------
// GitHub release URLs
// ---------------------------------------------------------------------

/// A GitHub release-asset URL with a `${version}` placeholder, and what
/// resolving it needs.
#[derive(Clone, Debug, PartialEq, Eq)]
pub struct GitHubUrl {
    /// The URL without its `#` parameters.
    pub base_url: String,
    /// A pattern whose first group reads the version from the latest
    /// release's URL.
    pub version_regex: Option<String>,
    /// `.../releases/latest` of the repository.
    pub releases_latest_url: String,
    /// `owner/repo`.
    pub cache_key: String,
    /// Whether the resolved download URL is cached.
    pub should_cache: bool,
    /// How long to cache it (seconds).
    pub cache_time: Option<u64>,
}

/// What `Url::parse` gives for `text` and then `Url::query` for the URL:
/// outer `None` when the text does not parse.
pub uninterp spec fn url_query_of(text: Seq<char>) -> Option<Option<Seq<char>>>;

/// `url::Url::parse`, then `Url::query`: the query of the URL `text`
/// is, or `None` when `text` is not a URL (named `url_query_of`).
#[verifier::external_body]
fn url_query(text: &str) -> (r: Option<Option<String>>)
    ensures
        match r {
            Some(q) => url_query_of(text@) == Some(opt_view(q)),
            None => url_query_of(text@) is None,
        },
{
    match url::Url::parse(text) {
        Ok(u) => Some(u.query().map(|q| q.to_string())),
        Err(_) => None,
    }
}

/// The pairs `form_urlencoded::parse` reads from a query.
pub uninterp spec fn form_pairs(query: Seq<char>) -> Seq<(Seq<char>, Seq<char>)>;

/// `form_urlencoded::parse` (what `Url::query_pairs` runs on a URL's
/// query): the query's `name=value` pairs, decoded, in order (named
/// `form_pairs`).
#[verifier::external_body]
fn query_pairs_of(query: &str) -> (r: Vec<(String, String)>)
    ensures
        pair_views(r@) == form_pairs(query@),
{
    url::form_urlencoded::parse(query.as_bytes()).into_owned().collect()
}

/// The host `Url::parse` and then `Url::host_str` give for `text`; `None`
/// when it does not parse or has no host.
pub uninterp spec fn url_host_of(text: Seq<char>) -> Option<Seq<char>>;

/// `url::Url::parse`, then `Url::host_str` (named `url_host_of`).
#[verifier::external_body]
fn url_host(text: &str) -> (r: Option<String>)
    ensures
        opt_view(r) == url_host_of(text@),
{
    match url::Url::parse(text) {
        Ok(u) => u.host_str().map(|h| h.to_string()),
        Err(_) => None,
    }
}

pub open spec fn opt_view(o: Option<String>) -> Option<Seq<char>> {
    match o {
        Some(s) => Some(s@),
        None => None,
    }
}

pub open spec fn pair_views(v: Seq<(String, String)>) -> Seq<(Seq<char>, Seq<char>)> {
    v.map_values(|p: (String, String)| (p.0@, p.1@))
}

/// The first `/` at or after `i`, or the end.
pub open spec fn next_slash(s: Seq<char>, i: int) -> int
    decreases s.len() - i,
{
    if i < 0 || i >= s.len() {
        s.len() as int
    } else if s[i] == '/' {
        i
    } else {
        next_slash(s, i + 1)
    }
}

/// `/owner/repo/releases` matches at `i`: a `/`, two runs free of `/`
/// with a `/` between, then `/releases`.
pub open spec fn repo_match_at(s: Seq<char>, i: int) -> bool {
    let j = next_slash(s, i + 1);
    let k = next_slash(s, j + 1);
    &&& 0 <= i < s.len()
    &&& s[i] == '/'
    &&& i + 1 < j < s.len()
    &&& j + 1 < k
    &&& has_prefix(s.skip(k), "/releases"@)
}

/// The leftmost place `/owner/repo/releases` matches, from `i` on.
pub open spec fn first_repo_match(s: Seq<char>, i: int) -> Option<int>
    decreases s.len() - i,
{
    if i < 0 || i >= s.len() {
        None
    } else if repo_match_at(s, i) {
        Some(i)
    } else {
        first_repo_match(s, i + 1)
    }
}

/// The two groups of the leftmost match of `/([^/]+)/([^/]+)/releases`.
pub open spec fn repo_captures_spec(s: Seq<char>) -> Option<(Seq<char>, Seq<char>)> {
    match first_repo_match(s, 0) {
        Some(i) => {
            let j = next_slash(s, i + 1);
            let k = next_slash(s, j + 1);
            Some((s.subrange(i + 1, j), s.subrange(j + 1, k)))
        },
        None => None,
    }
}

/// `regex::Regex::captures` with the pattern `/([^/]+)/([^/]+)/releases`:
/// its first and second groups at the leftmost match. Each group is a
/// greedy run free of `/` that must end at a `/`, so it runs to the next
/// `/`.
#[verifier::external_body]
fn repo_captures(text: &str) -> (r: Option<(String, String)>)
    ensures
        match (r, repo_captures_spec(text@)) {
            (Some((o, p)), Some((a, b))) => o@ == a && p@ == b,
            (None, None) => true,
            _ => false,
        },
{
    let re = regex::Regex::new(r"/([^/]+)/([^/]+)/releases").ok()?;
    let caps = re.captures(text)?;
    Some((caps.get(1)?.as_str().to_string(), caps.get(2)?.as_str().to_string()))
}

/// The last `versionRegex` value among the pairs.
pub open spec fn version_regex_of(pairs: Seq<(Seq<char>, Seq<char>)>) -> Option<Seq<char>>
    decreases pairs.len(),
{
    if pairs.len() == 0 {
        None
    } else if pairs.last().0 == "versionRegex"@ {
        Some(pairs.last().1)
    } else {
        version_regex_of(pairs.drop_last())
    }
}

/// The last `cacheTime` value that reads as a positive `u64`.
pub open spec fn cache_time_of(pairs: Seq<(Seq<char>, Seq<char>)>) -> Option<u64>
    decreases pairs.len(),
{
    if pairs.len() == 0 {
        None
    } else if pairs.last().0 == "cacheTime"@ && parse_unsigned(pairs.last().1, u64::MAX as nat) is Some
        && parse_unsigned(pairs.last().1, u64::MAX as nat)->Some_0 > 0 {
        Some(parse_unsigned(pairs.last().1, u64::MAX as nat)->Some_0 as u64)
    } else {
        cache_time_of(pairs.drop_last())
    }
}

/// The parts of a GitHub release-asset URL as plain values.
pub struct GitHubView {
    pub base_url: Seq<char>,
    pub version_regex: Option<Seq<char>>,
    pub releases_latest_url: Seq<char>,
    pub cache_key: Seq<char>,
    pub should_cache: bool,
    pub cache_time: Option<u64>,
}

pub open spec fn github_view(g: GitHubUrl) -> GitHubView {
    GitHubView {
        base_url: g.base_url@,
        version_regex: opt_view(g.version_regex),
        releases_latest_url: g.releases_latest_url@,
        cache_key: g.cache_key@,
        should_cache: g.should_cache,
        cache_time: g.cache_time,
    }
}

/// The pairs of the parameters after a URL's `#`, read as a query; none
/// when there is no `#`, `None` when they do not parse.
pub open spec fn params_pairs(url: Seq<char>) -> Option<Seq<(Seq<char>, Seq<char>)>> {
    match first_index(url, '#') {
        Some(h) => match url_query_of("https://dummy.local/?"@ + url.skip(h + 1)) {
            Some(q) => Some(
                form_pairs(
                    match q {
                        Some(t) => t,
                        None => Seq::empty(),
                    },
                ),
            ),
            None => None,
        },
        None => Some(Seq::empty()),
    }
}

/// What a GitHub release-asset URL gives: parameters after `#` (read as a
/// query), the repository from the path, caching for github.com or a
/// given cache time. `None` where the parameters do not parse as a query,
/// the URL has no `/releases/`, or no `owner/repo` before it.
pub open spec fn github_spec(url: Seq<char>) -> Option<GitHubView> {
    let base = match first_index(url, '#') {
        Some(h) => url.take(h),
        None => url,
    };
    let pairs = params_pairs(url);
    match pairs {
        None => None,
        Some(ps) => match find_seq(base, "/releases/"@) {
            None => None,
            Some(ri) => match repo_captures_spec(base) {
                None => None,
                Some((owner, repo)) => Some(
                    GitHubView {
                        base_url: base,
                        version_regex: version_regex_of(ps),
                        releases_latest_url: base.take(ri) + "/releases"@ + "/latest"@,
                        cache_key: owner + "/"@ + repo,
                        should_cache: url_host_of(base) == Some("github.com"@) || cache_time_of(ps) is Some,
                        cache_time: cache_time_of(ps),
                    },
                ),
            },
        },
    }
}

fn text_eq(a: &str, b: &str) -> (r: bool)
    ensures
        r == (a@ == b@),
{
    chars_eq(&chars_of(a), &chars_of(b))
}

fn read_params(pairs: &Vec<(String, String)>) -> (r: (Option<String>, Option<u64>))
    ensures
        opt_view(r.0) == version_regex_of(pair_views(pairs@)),
        r.1 == cache_time_of(pair_views(pairs@)),
{
    let mut version_regex: Option<String> = None;
    let mut cache_time: Option<u64> = None;
    let mut i: usize = 0;
    while i < pairs.len()
        invariant
            i <= pairs@.len(),
            opt_view(version_regex) == version_regex_of(pair_views(pairs@.take(i as int))),
            cache_time == cache_time_of(pair_views(pairs@.take(i as int))),
        decreases pairs@.len() - i,
    {
        let ghost t = pair_views(pairs@.take(i + 1 as int));
        assert(t.drop_last() =~= pair_views(pairs@.take(i as int)));
        assert(t.last() == (pairs@[i as int].0@, pairs@[i as int].1@));
        let k = pairs[i].0.as_str();
        let v = pairs[i].1.as_str();
        proof {
            reveal_strlit("versionRegex");
            reveal_strlit("cacheTime");
        }
        if text_eq(k, "versionRegex") {
            assert("versionRegex"@.len() == 12 && "cacheTime"@.len() == 9);
            version_regex = Some(String::from_str(v));
        } else if text_eq(k, "cacheTime") {
            if let Some(n) = parse_u64(&chars_of(v)) {
                if n > 0 {
                    cache_time = Some(n);
                }
            }
        }
        assert(cache_time == cache_time_of(t));
        i += 1;
    }
    assert(pairs@.take(pairs@.len() as int) =~= pairs@);
    (version_regex, cache_time)
}

/// Reads a GitHub release-asset URL; the error shows the metadata failure
/// (the cause goes to the log).
pub fn parse_github_url(url: &str) -> (r: Result<GitHubUrl, ErrorChain>)
    ensures
        match (r, github_spec(url@)) {
            (Ok(g), Some(v)) => github_view(g) == v,
            (Err(e), None) => e.causes@.len() == 1 && cause_message(e.causes@[0]) == META_FAILED@,
            _ => false,
        },
{
    let cs = chars_of(url);
    let (base_url, pairs) = match find_char(&cs, '#') {
        Some(h) => {
            let base = string_of(&slice_chars(&cs, 0, h));
            let params = string_of(&slice_chars(&cs, h + 1, cs.len()));
            assert(params@ =~= url@.skip(h + 1));
            let mut dummy = String::from_str("https://dummy.local/?");
            dummy.append(params.as_str());
            assert(dummy@ == "https://dummy.local/?"@ + url@.skip(h as int + 1));
            assert(first_index(url@, '#') == Some(h as int));
            let q = match url_query(dummy.as_str()) {
                Some(q) => q,
                None => {
                    return Err(hide_detail(META_FAILED));
                },
            };
            let pairs = match q {
                Some(t) => query_pairs_of(t.as_str()),
                None => {
                    proof {
                        reveal_strlit("");
                        assert(""@ =~= Seq::<char>::empty());
                    }
                    query_pairs_of("")
                },
            };
            assert(pair_views(pairs@) == params_pairs(url@)->Some_0);
            (base, pairs)
        },
        None => {
            let pairs: Vec<(String, String)> = Vec::new();
            assert(pair_views(pairs@) =~= params_pairs(url@)->Some_0);
            (String::from_str(url), pairs)
        },
    };
    assert(params_pairs(url@) is Some);
    assert(base_url@ =~= match first_index(url@, '#') {
        Some(h) => url@.take(h),
        None => url@,
    });
    let (version_regex, cache_time) = read_params(&pairs);
    let bc = chars_of(base_url.as_str());
    let ri = match find_exec(&bc, &chars_of("/releases/")) {
        Some(i) => i,
        None => {
            return Err(hide_detail(META_FAILED));
        },
    };
    let mut latest = string_of(&slice_chars(&bc, 0, ri));
    latest.append("/releases");
    latest.append("/latest");
    let (owner, repo) = match repo_captures(base_url.as_str()) {
        Some(c) => c,
        None => {
            return Err(hide_detail(META_FAILED));
        },
    };
    let mut key = owner;
    key.append("/");
    key.append(repo.as_str());
    let host_ok = match url_host(base_url.as_str()) {
        Some(h) => text_eq(h.as_str(), "github.com"),
        None => false,
    };
    let should_cache = host_ok || cache_time.is_some();
    Ok(
        GitHubUrl {
            base_url,
            version_regex,
            releases_latest_url: latest,
            cache_key: key,
            should_cache,
            cache_time,
        },
    )
}

/// A character that ends a release tag in a URL.
pub open spec fn tag_stop(c: char) -> bool {
    c == '/' || c == '?' || c == '#'
}

/// The first tag-ending character at or after `i`, or the end.
pub open spec fn tag_end(s: Seq<char>, i: int) -> int
    decreases s.len() - i,
{
    if i < 0 || i >= s.len() {
        s.len() as int
    } else if tag_stop(s[i]) {
        i
    } else {
        tag_end(s, i + 1)
    }
}

/// `/releases/tag/` and at least one tag character start at `i`.
pub open spec fn tag_match_at(s: Seq<char>, i: int) -> bool {
    &&& 0 <= i
    &&& has_prefix(s.skip(i), "/releases/tag/"@)
    &&& i + 14 < s.len()
    &&& !tag_stop(s[i + 14])
}

pub open spec fn first_tag_match(s: Seq<char>, i: int) -> Option<int>
    decreases s.len() - i,
{
    if i < 0 || i >= s.len() {
        None
    } else if tag_match_at(s, i) {
        Some(i)
    } else {
        first_tag_match(s, i + 1)
    }
}

/// The group of the leftmost match of `/releases/tag/([^/?#]+)`.
pub open spec fn tag_capture_spec(s: Seq<char>) -> Option<Seq<char>> {
    match first_tag_match(s, 0) {
        Some(i) => Some(s.subrange(i + 14, tag_end(s, i + 14))),
        None => None,
    }
}

/// `regex::Regex::captures` with the pattern `/releases/tag/([^/?#]+)`:
/// the group at the leftmost match, a greedy run up to the next `/`, `?`
/// or `#`.
#[verifier::external_body]
fn tag_capture(text: &str) -> (r: Option<String>)
    ensures
        opt_view(r) == tag_capture_spec(text@),
{
    let re = regex::Regex::new(r"/releases/tag/([^/?#]+)").ok()?;
    Some(re.captures(text)?.get(1)?.as_str().to_string())
}

/// What `regex::Regex::new(pattern)` and then `captures(text)` give as
/// the first group: outer `None` for a pattern that does not compile,
/// inner `None` when nothing (or no first group) matches.
pub uninterp spec fn first_group_of(pattern: Seq<char>, text: Seq<char>) -> Option<Option<Seq<char>>>;

/// `regex::Regex::new`, then `Regex::captures` and its first group (named
/// `first_group_of`).
#[verifier::external_body]
fn first_group(pattern: &str, text: &str) -> (r: Option<Option<String>>)
    ensures
        match r {
            Some(g) => first_group_of(pattern@, text@) == Some(opt_view(g)),
            None => first_group_of(pattern@, text@) is None,
        },
{
    match regex::Regex::new(pattern) {
        Ok(re) => Some(re.captures(text).and_then(|c| c.get(1).map(|m| m.as_str().to_string()))),
        Err(_) => None,
    }
}

/// Where the latest release points: the final URL of the redirect, else
/// its `Location` header.
pub open spec fn latest_redirect(final_url: Seq<char>, location: Option<Seq<char>>) -> Seq<char> {
    if final_url.len() > 0 {
        final_url
    } else {
        match location {
            Some(l) => l,
            None => Seq::empty(),
        }
    }
}

/// The version the latest release's redirect names, read with the
/// project's pattern or, without one, from `/releases/tag/<tag>`.
pub open spec fn version_spec(final_url: Seq<char>, location: Option<Seq<char>>, version_regex: Option<Seq<char>>) -> Option<
    Seq<char>,
> {
    let redirect = latest_redirect(final_url, location);
    if redirect.len() == 0 {
        None
    } else {
        match version_regex {
            Some(p) => match first_group_of(p, redirect) {
                Some(Some(v)) => Some(v),
                _ => None,
            },
            None => tag_capture_spec(redirect),
        }
    }
}

/// Reads the version from the answer to `.../releases/latest`: its final
/// URL and `Location` header. Every failure shows the metadata failure.
pub fn version_from_redirect(final_url: &str, location: Option<&str>, version_regex: Option<&str>) -> (r: Result<
    String,
    ErrorChain,
>)
    ensures
        match (r, version_spec(final_url@, opt_str_view(location), opt_str_view(version_regex))) {
            (Ok(v), Some(w)) => v@ == w,
            (Err(e), None) => e.causes@.len() == 1 && cause_message(e.causes@[0]) == META_FAILED@,
            _ => false,
        },
{
    let redirect: &str = if chars_of(final_url).len() > 0 {
        final_url
    } else {
        match location {
            Some(l) => l,
            None => {
                proof {
                    reveal_strlit("");
                }
                ""
            },
        }
    };
    assert(redirect@ =~= latest_redirect(final_url@, opt_str_view(location)));
    if chars_of(redirect).len() == 0 {
        return Err(hide_detail(META_FAILED));
    }
    match version_regex {
        Some(p) => match first_group(p, redirect) {
            Some(Some(v)) => Ok(v),
            _ => Err(hide_detail(META_FAILED)),
        },
        None => match tag_capture(redirect) {
            Some(v) => Ok(v),
            None => Err(hide_detail(META_FAILED)),
        },
    }
}

pub open spec fn opt_str_view(o: Option<&str>) -> Option<Seq<char>> {
    match o {
        Some(s) => Some(s@),
        None => None,
    }
}

/// The scheme and host (empty when there is none) `Url::parse` reads
/// from `text`; `None` when it does not parse.
pub uninterp spec fn url_origin_of(text: Seq<char>) -> Option<(Seq<char>, Seq<char>)>;

/// `url::Url::parse`, then `Url::scheme` and `Url::host_str` (named
/// `url_origin_of`).
#[verifier::external_body]
fn url_origin(text: &str) -> (r: Option<(String, String)>)
    ensures
        match r {
            Some((a, b)) => url_origin_of(text@) == Some((a@, b@)),
            None => url_origin_of(text@) is None,
        },
{
    match url::Url::parse(text) {
        Ok(u) => Some((u.scheme().to_string(), u.host_str().unwrap_or("").to_string())),
        Err(_) => None,
    }
}

/// Where a download URL redirects: the `Location` header when there is
/// one, else the final URL; a path is completed with the original URL's
/// scheme and host. `None`: no redirect (or back to the original), so the
/// original URL is used as it is and not cached.
pub open spec fn redirect_spec(original: Seq<char>, location: Option<Seq<char>>, final_url: Seq<char>) -> Option<Seq<char>> {
    let r = match location {
        Some(l) => if l.len() > 0 { l } else { final_url },
        None => final_url,
    };
    if r.len() == 0 || r == original {
        None
    } else if r[0] == '/' && url_origin_of(original) is Some {
        let (scheme, host) = url_origin_of(original)->Some_0;
        Some(scheme + "://"@ + host + r)
    } else {
        Some(r)
    }
}

/// Where a download URL redirects, from the answer to a request for it.
pub fn redirect_target(original: &str, location: Option<&str>, final_url: &str) -> (r: Option<String>)
    ensures
        opt_view(r) == redirect_spec(original@, opt_str_view(location), final_url@),
{
    let r: &str = match location {
        Some(l) => if chars_of(l).len() > 0 { l } else { final_url },
        None => final_url,
    };
    let rc = chars_of(r);
    if rc.len() == 0 || text_eq(r, original) {
        return None;
    }
    if rc[0] == '/' {
        if let Some((scheme, host)) = url_origin(original) {
            let mut s = scheme;
            s.append("://");
            s.append(host.as_str());
            s.append(r);
            return Some(s);
        }
    }
    Some(String::from_str(r))
}

/// The milliseconds since the epoch that `chrono::DateTime::parse_from_rfc3339`
/// and `timestamp_millis` give for `text`; `None` when it does not parse.
pub uninterp spec fn rfc3339_millis_of(text: Seq<char>) -> Option<int>;

/// `chrono::DateTime::parse_from_rfc3339`, then `timestamp_millis` (named
/// `rfc3339_millis_of`).
#[verifier::external_body]
fn rfc3339_millis(text: &str) -> (r: Option<i64>)
    ensures
        match r {
            Some(m) => rfc3339_millis_of(text@) == Some(m as int),
            None => rfc3339_millis_of(text@) is None,
        },
{
    chrono::DateTime::parse_from_rfc3339(text).ok().map(|d| d.timestamp_millis())
}

/// The value of the first pair named `key`.
pub open spec fn first_value(pairs: Seq<(Seq<char>, Seq<char>)>, key: Seq<char>) -> Option<Seq<char>>
    decreases pairs.len(),
{
    if pairs.len() == 0 {
        None
    } else if pairs[0].0 == key {
        Some(pairs[0].1)
    } else {
        first_value(pairs.skip(1), key)
    }
}

/// The time a signed URL expires, from the first `ske` (else `se`)
/// parameter that reads as an RFC 3339 time; negative times count as 0.
pub open spec fn expiry_spec(url: Seq<char>) -> Option<int> {
    match url_query_of(url) {
        None => None,
        Some(q) => {
            let ps = form_pairs(
                match q {
                    Some(t) => t,
                    None => Seq::empty(),
                },
            );
            let ske = match first_value(ps, "ske"@) {
                Some(v) => rfc3339_millis_of(v),
                None => None,
            };
            let se = match first_value(ps, "se"@) {
                Some(v) => rfc3339_millis_of(v),
                None => None,
            };
            match ske {
                Some(m) => Some(if m < 0 { 0 } else { m }),
                None => match se {
                    Some(m) => Some(if m < 0 { 0 } else { m }),
                    None => None,
                },
            }
        },
    }
}

fn find_value(pairs: &Vec<(String, String)>, key: &str) -> (r: Option<String>)
    ensures
        opt_view(r) == first_value(pair_views(pairs@), key@),
{
    let mut i: usize = 0;
    assert(pair_views(pairs@).skip(0) =~= pair_views(pairs@));
    while i < pairs.len()
        invariant
            i <= pairs@.len(),
            first_value(pair_views(pairs@), key@) == first_value(pair_views(pairs@).skip(i as int), key@),
        decreases pairs@.len() - i,
    {
        let ghost t = pair_views(pairs@).skip(i as int);
        assert(t[0] == (pairs@[i as int].0@, pairs@[i as int].1@));
        assert(t.skip(1) =~= pair_views(pairs@).skip(i + 1));
        if text_eq(pairs[i].0.as_str(), key) {
            return Some(pairs[i].1.clone());
        }
        i += 1;
    }
    None
}

/// The time a signed URL expires (milliseconds since the epoch).
pub fn expiry_from_url(url: &str) -> (r: Option<u128>)
    ensures
        match r {
            Some(m) => expiry_spec(url@) == Some(m as int),
            None => expiry_spec(url@) is None,
        },
{
    let q = match url_query(url) {
        Some(q) => q,
        None => {
            return None;
        },
    };
    let pairs = match q {
        Some(t) => query_pairs_of(t.as_str()),
        None => {
            proof {
                reveal_strlit("");
                assert(""@ =~= Seq::<char>::empty());
            }
            query_pairs_of("")
        },
    };
    let ske = match find_value(&pairs, "ske") {
        Some(v) => rfc3339_millis(v.as_str()),
        None => None,
    };
    if let Some(m) = ske {
        return Some(if m < 0 { 0 } else { m as u128 });
    }
    let se = match find_value(&pairs, "se") {
        Some(v) => rfc3339_millis(v.as_str()),
        None => None,
    };
    match se {
        Some(m) => Some(if m < 0 { 0 } else { m as u128 }),
        None => None,
    }
}

/// When a resolved download URL leaves the cache: after the given cache
/// time, else when the URL itself expires, else in five minutes.
pub fn cache_expiry(now: u128, cache_time: Option<u64>, redirect: &str) -> (r: u128)
    requires
        now + 18446744073709551615000 <= u128::MAX,
    ensures
        r == match cache_time {
            Some(secs) => now + secs * 1000,
            None => match expiry_spec(redirect@) {
                Some(m) => m,
                None => now + 300000,
            },
        },
{
    match cache_time {
        Some(secs) => now + secs as u128 * 1000,
        None => match expiry_from_url(redirect) {
            Some(m) => m,
            None => now + 300000,
        },
    }
}

} // verus!
