//! The download service's messages and the URLs its requests go to.

use vstd::prelude::*;
use crate::challenge::{candidate, md5_solves, solve_md5};
use crate::network::InsightItem;
use crate::text::{chars_of, contains, decimal, split_chars, split_on, str_contains, string_of, u64_text};
use vstd::string::StringExecFns;

verus! {

/// The service's answer: where to download, or a challenge to solve first.
#[derive(Clone, Debug, PartialEq, Eq)]
pub struct DownloadResp {
    pub url: Option<String>,
    pub source: Option<String>,
    pub tests: Option<Vec<(String, String)>>,
    pub challenge: Option<String>,
}

/// One file of a service index.
#[derive(Clone, Debug, PartialEq, Eq)]
pub struct Dfs2FileInfo {
    pub name: String,
    pub offset: u32,
    pub raw_offset: u32,
    pub size: u32,
}

/// The answer to a session request.
#[derive(Clone, Debug, PartialEq, Eq)]
pub struct Dfs2SessionResponse {
    pub tries: Option<Vec<String>>,
    pub sid: Option<String>,
    pub challenge: Option<String>,
    pub data: Option<String>,
}

/// Where one chunk is served.
#[derive(Clone, Debug, PartialEq, Eq)]
pub struct Dfs2ChunkResponse {
    pub url: String,
}

/// What the session learned of its download servers.
#[derive(Clone, Debug, PartialEq, Eq)]
pub struct Dfs2SessionInsights {
    pub servers: Vec<InsightItem>,
}

/// Ending a session, with what it learned.
#[derive(Clone, Debug, PartialEq, Eq)]
pub struct Dfs2DeleteRequest {
    pub insights: Option<Dfs2SessionInsights>,
}

/// The download request's URL: the range goes in the query.
pub open spec fn range_query_spec(url: Seq<char>, range: Option<Seq<char>>) -> Seq<char> {
    match range {
        Some(r) => url + "?range="@ + r,
        None => url + "?"@,
    }
}

/// The download request's URL.
pub fn range_query(url: &str, range: Option<&str>) -> (r: String)
    ensures
        r@ == range_query_spec(url@, match range {
            Some(s) => Some(s@),
            None => None,
        }),
{
    let mut s = String::from_str(url);
    match range {
        Some(rg) => {
            s.append("?range=");
            s.append(rg);
        },
        None => s.append("?"),
    }
    s
}

/// The request asking for metadata too.
pub open spec fn metadata_url_spec(api_url: Seq<char>) -> Seq<char> {
    if contains(api_url, "?"@) {
        api_url + "&with_metadata=1"@
    } else {
        api_url + "?with_metadata=1"@
    }
}

/// The request asking for metadata too.
pub fn metadata_url(api_url: &str) -> (r: String)
    ensures
        r@ == metadata_url_spec(api_url@),
{
    let mut s = String::from_str(api_url);
    if str_contains(api_url, "?") {
        s.append("&with_metadata=1");
    } else {
        s.append("?with_metadata=1");
    }
    s
}

/// Where a chunk of the session is asked for.
pub fn chunk_url(session_api_url: &str, range: &str) -> (r: String)
    ensures
        r@ == session_api_url@ + "?range="@ + range@,
{
    let mut s = String::from_str(session_api_url);
    s.append("?range=");
    s.append(range);
    s
}

/// The `Range` header of a request for `size` bytes at `offset`; none for
/// the whole resource (both zero).
pub fn range_header(offset: u64, size: u64) -> (r: Option<String>)
    requires
        offset != 0 || size != 0 ==> 1 <= offset + size <= u64::MAX,
    ensures
        offset == 0 && size == 0 ==> r is None,
        offset != 0 || size != 0 ==> r is Some && r->Some_0@ == "bytes="@ + decimal(offset as nat) + "-"@
            + decimal((offset + size - 1) as nat),
{
    if offset == 0 && size == 0 {
        return None;
    }
    let mut s = String::from_str("bytes=");
    s.append(u64_text(offset).as_str());
    s.append("-");
    s.append(u64_text(offset + size - 1).as_str());
    Some(s)
}

/// The session id that answers a download challenge `hash/source`, and
/// the request that carries it.
pub fn challenge_sid(url_with_query: &str, challenge: &str) -> (r: Result<String, String>)
    ensures
        match r {
            Ok(u) => {
                let parts = split_on(challenge@, '/');
                parts.len() == 2 && exists|i: nat|
                    i < 256 && md5_solves(parts[0], #[trigger] candidate(parts[1], i, 2)) && u@
                        == url_with_query@ + "&sid="@ + candidate(parts[1], i, 2)
            },
            Err(e) => (split_on(challenge@, '/').len() != 2 && e@ == "Invalid challenge"@) || (split_on(
                challenge@,
                '/',
            ).len() == 2 && e@ == "Failed to solve challenge"@ && forall|i: nat|
                i < 256 ==> !md5_solves(
                    split_on(challenge@, '/')[0],
                    #[trigger] candidate(split_on(challenge@, '/')[1], i, 2),
                )),
        },
{
    let cs = chars_of(challenge);
    let parts = split_chars(&cs, '/');
    if parts.len() != 2 {
        return Err(String::from_str("Invalid challenge"));
    }
    let hash = string_of(&parts[0]);
    let source = string_of(&parts[1]);
    match solve_md5(hash.as_str(), source.as_str()) {
        Some(solve) => {
            let mut u = String::from_str(url_with_query);
            u.append("&sid=");
            u.append(solve.as_str());
            proof {
                let i = choose|i: nat|
                    i < 256 && solve@ == candidate(source@, i, 2) && md5_solves(hash@, solve@) && forall|j: nat|
                        j < i ==> !md5_solves(hash@, #[trigger] candidate(source@, j, 2));
                assert(md5_solves(parts@[0]@, candidate(parts@[1]@, i, 2)));
            }
            Ok(u)
        },
        None => Err(String::from_str("Failed to solve challenge")),
    }
}

} // verus!
