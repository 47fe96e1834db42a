//! The messages between the installer and its elevated helper: what to
//! install and how, what came back, how several chunks are read from one
//! ranged stream, and the framing of messages on the pipe.

use vstd::prelude::*;
use vstd::string::StringExecFns;
use crate::network::{copy_insight, same_insight, InsightItem};
use crate::scan::Metadata;
use crate::text::{chars_eq, chars_of};

verus! {

/// Where the bytes of a file come from.
#[derive(Clone, Debug, PartialEq, Eq)]
pub enum InstallFileSource {
    Url {
        url: String,
        offset: usize,
        size: usize,
        skip_decompress: bool,
        request_range: Option<String>,
    },
    /// A range of the installer's own embedded data.
    Local { offset: usize, size: usize, skip_decompress: bool },
}

/// How a file is made from its sources.
#[derive(Clone, Debug, PartialEq, Eq)]
pub enum InstallFileMode {
    Direct(InstallFileSource),
    Patch { source: InstallFileSource, diff_size: usize },
    /// The old file comes from `source`, then `diff` patches it.
    HybridPatch { diff: InstallFileSource, source: InstallFileSource },
}

/// One file to install.
#[derive(Clone, Debug, PartialEq, Eq)]
pub struct InstallFileArgs {
    pub mode: InstallFileMode,
    pub target: String,
    pub md5: Option<String>,
    pub xxh: Option<String>,
    pub clear_installer_index_mark: Option<bool>,
}

/// Several files read from one ranged download.
#[derive(Clone, Debug, PartialEq, Eq)]
pub struct InstallMultiStreamArgs {
    pub url: String,
    pub range: String,
    pub chunks: Vec<InstallFileArgs>,
}

/// What installing one file did.
#[derive(Clone, Debug, PartialEq, Eq)]
pub struct InstallResult {
    pub bytes_transferred: usize,
    pub insight: Option<InsightItem>,
}

/// A failure as it crosses the pipe: its message and the download record.
#[derive(Clone, Debug, PartialEq, Eq)]
pub struct IpcError {
    pub message: String,
    pub insight: Option<InsightItem>,
}

/// What installing several chunks did, chunk by chunk.
#[derive(Clone, Debug, PartialEq, Eq)]
pub struct MultichunkResult {
    pub results: Vec<Result<usize, IpcError>>,
    pub insight: InsightItem,
}

/// The answer to an operation.
#[derive(Clone, Debug, PartialEq, Eq)]
pub enum IpcResult {
    Ping,
    InstallFile(InstallResult),
    InstallMultichunkStream(MultichunkResult),
    CreateLnk,
    WriteRegistry,
    CreateUninstaller,
    RunUninstall(Vec<String>),
    FindProcessByName(Vec<(u32, String)>),
    KillProcess,
    RmList(Vec<String>),
    InstallRuntime(String),
    CheckLocalFiles(Vec<Metadata>),
    ProbeWritable(Vec<String>),
    RunMirrorcDownload,
    /// The archive's `.metadata.json`, as text.
    RunMirrorcInstall(Option<String>),
}

/// The default of an absent `skip_decompress`.
pub fn default_as_false() -> (r: bool)
    ensures
        !r,
{
    false
}

pub open spec fn source_decompresses(s: InstallFileSource) -> bool {
    match s {
        InstallFileSource::Url { skip_decompress, .. } => !skip_decompress,
        InstallFileSource::Local { skip_decompress, .. } => !skip_decompress,
    }
}

pub open spec fn source_offset(s: InstallFileSource) -> usize {
    match s {
        InstallFileSource::Url { offset, .. } => offset,
        InstallFileSource::Local { offset, .. } => offset,
    }
}

pub open spec fn source_size(s: InstallFileSource) -> usize {
    match s {
        InstallFileSource::Url { size, .. } => size,
        InstallFileSource::Local { size, .. } => size,
    }
}

/// The source that is read from the stream: the direct one, the patch's
/// one, or a hybrid patch's diff.
pub open spec fn streamed_source(a: InstallFileArgs) -> InstallFileSource {
    match a.mode {
        InstallFileMode::Direct(s) => s,
        InstallFileMode::Patch { source, .. } => source,
        InstallFileMode::HybridPatch { diff, .. } => diff,
    }
}

/// Whether a chunk's bytes are zstd-compressed.
pub open spec fn chunk_decompresses(a: InstallFileArgs) -> bool {
    source_decompresses(streamed_source(a))
}

/// Where a chunk starts in the stream.
pub open spec fn chunk_position(a: InstallFileArgs) -> usize {
    source_offset(streamed_source(a))
}

/// How many bytes of the stream a chunk takes: a patch's diff size, else
/// its source's size.
pub open spec fn chunk_size(a: InstallFileArgs) -> usize {
    match a.mode {
        InstallFileMode::Patch { diff_size, .. } => diff_size,
        _ => source_size(streamed_source(a)),
    }
}

fn source_fields(s: &InstallFileSource) -> (r: (usize, usize, bool))
    ensures
        r == (source_offset(*s), source_size(*s), source_decompresses(*s)),
{
    match s {
        InstallFileSource::Url { offset, size, skip_decompress, .. } => (*offset, *size, !*skip_decompress),
        InstallFileSource::Local { offset, size, skip_decompress } => (*offset, *size, !*skip_decompress),
    }
}

fn streamed(args: &InstallFileArgs) -> (r: &InstallFileSource)
    ensures
        *r == streamed_source(*args),
{
    match &args.mode {
        InstallFileMode::Direct(s) => s,
        InstallFileMode::Patch { source, .. } => source,
        InstallFileMode::HybridPatch { diff, .. } => diff,
    }
}

/// Whether a chunk is decompressed after it is read.
pub fn should_decompress_chunk(args: &InstallFileArgs) -> (r: bool)
    ensures
        r == chunk_decompresses(*args),
{
    source_fields(streamed(args)).2
}

/// How many bytes of the stream a chunk takes.
pub fn get_chunk_size(args: &InstallFileArgs) -> (r: usize)
    ensures
        r == chunk_size(*args),
{
    match &args.mode {
        InstallFileMode::Patch { diff_size, .. } => *diff_size,
        _ => source_fields(streamed(args)).1,
    }
}

/// Where a chunk starts in the stream.
pub fn get_chunk_position(args: &InstallFileArgs) -> (r: usize)
    ensures
        r == chunk_position(*args),
{
    source_fields(streamed(args)).0
}

/// The transfer mode a download reports: `hybridpatch`, `patch`, or
/// `direct` for a direct download from a URL; none for a local copy.
pub open spec fn transfer_mode_spec(m: InstallFileMode) -> Option<Seq<char>> {
    match m {
        InstallFileMode::HybridPatch { .. } => Some("hybridpatch"@),
        InstallFileMode::Patch { .. } => Some("patch"@),
        InstallFileMode::Direct(InstallFileSource::Url { .. }) => Some("direct"@),
        _ => None,
    }
}

/// The transfer mode a download reports.
pub fn transfer_mode(m: &InstallFileMode) -> (r: Option<&'static str>)
    ensures
        match r {
            Some(s) => transfer_mode_spec(*m) == Some(s@),
            None => transfer_mode_spec(*m) is None,
        },
{
    match m {
        InstallFileMode::HybridPatch { .. } => Some("hybridpatch"),
        InstallFileMode::Patch { .. } => Some("patch"),
        InstallFileMode::Direct(InstallFileSource::Url { .. }) => Some("direct"),
        _ => None,
    }
}

/// Whether a file's hash is checked after it is written.
pub open spec fn verifies_hash(a: InstallFileArgs) -> bool {
    a.md5 is Some || a.xxh is Some
}

/// Whether the installer's index mark is cleared from a file before its
/// hash is checked: when it is checked, and either the caller asks for it
/// or the file replaces the running installer.
pub fn needs_index_clear(args: &InstallFileArgs, replaces_running: bool) -> (r: bool)
    ensures
        r == (verifies_hash(*args) && (args.clear_installer_index_mark == Some(true) || replaces_running)),
{
    let asked = match args.clear_installer_index_mark {
        Some(b) => b,
        None => false,
    };
    (args.md5.is_some() || args.xxh.is_some()) && (asked || replaces_running)
}

/// The error code a download record gets when the hash check fails: a
/// failure that is no particular network error is a hash mismatch.
pub fn hash_failure_code(code: &str) -> (r: String)
    ensures
        r@ == (if code@ == "ERR_NETWORK_OTHER"@ { "HASH_MISMATCH_ERR"@ } else { code@ }),
{
    if chars_eq(&chars_of(code), &chars_of("ERR_NETWORK_OTHER")) {
        String::from_str("HASH_MISMATCH_ERR")
    } else {
        String::from_str(code)
    }
}

impl IpcResult {
    /// The download record an answer carries.
    pub fn insight(&self) -> (r: Option<InsightItem>)
        ensures
            match *self {
                IpcResult::InstallFile(res) => match (r, res.insight) {
                    (Some(a), Some(b)) => same_insight(a, b),
                    (None, None) => true,
                    _ => false,
                },
                IpcResult::InstallMultichunkStream(res) => r matches Some(a) && same_insight(a, res.insight),
                _ => r is None,
            },
    {
        match self {
            IpcResult::InstallFile(res) => match &res.insight {
                Some(i) => Some(copy_insight(i)),
                None => None,
            },
            IpcResult::InstallMultichunkStream(res) => Some(copy_insight(&res.insight)),
            _ => None,
        }
    }
}

// ---------------------------------------------------------------------
// Reading several chunks from one stream
// ---------------------------------------------------------------------

/// One step of reading chunks from a stream: skip `skip` bytes, then read
/// `size` bytes for chunk `index` (of the list given).
#[derive(Clone, Copy, Debug, PartialEq, Eq, Structural)]
pub struct ChunkStep {
    pub index: usize,
    pub skip: usize,
    pub size: usize,
    pub decompress: bool,
}

/// `order` lists each chunk once, by position, chunks at one position in
/// the order they were given (a stable sort).
pub open spec fn by_position(pos: Seq<int>, order: Seq<int>) -> bool {
    &&& order.len() == pos.len()
    &&& forall|i: int| 0 <= i < order.len() ==> 0 <= #[trigger] order[i] < pos.len()
    &&& forall|i: int, j: int|
        0 <= i < j < order.len() ==> (pos[order[i]] < pos[order[j]] || (pos[order[i]] == pos[order[j]]
            && order[i] < order[j]))
}

/// Where the stream stands after the first `n` chunks of `order`: each
/// chunk is read from its position, unless the stream is already past it,
/// in which case it is read from where the stream stands.
pub open spec fn stream_at(pos: Seq<int>, size: Seq<int>, order: Seq<int>, n: int) -> int
    decreases n,
{
    if n <= 0 {
        0
    } else {
        let s = stream_at(pos, size, order, n - 1);
        let c = order[n - 1];
        (if s < pos[c] { pos[c] } else { s }) + size[c]
    }
}

/// How many bytes are skipped before chunk `n` of `order`.
pub open spec fn skip_at(pos: Seq<int>, size: Seq<int>, order: Seq<int>, n: int) -> int {
    let s = stream_at(pos, size, order, n);
    if s < pos[order[n]] {
        pos[order[n]] - s
    } else {
        0
    }
}

pub open spec fn positions(chunks: Seq<InstallFileArgs>) -> Seq<int> {
    chunks.map_values(|a: InstallFileArgs| chunk_position(a) as int)
}

pub open spec fn sizes(chunks: Seq<InstallFileArgs>) -> Seq<int> {
    chunks.map_values(|a: InstallFileArgs| chunk_size(a) as int)
}

pub open spec fn step_order(steps: Seq<ChunkStep>) -> Seq<int> {
    steps.map_values(|s: ChunkStep| s.index as int)
}

/// The steps read the chunks by position and skip exactly the gaps.
pub open spec fn plan_spec(chunks: Seq<InstallFileArgs>, steps: Seq<ChunkStep>) -> bool {
    let order = step_order(steps);
    &&& by_position(positions(chunks), order)
    &&& forall|i: int|
        0 <= i < steps.len() ==> {
            &&& #[trigger] steps[i].skip == skip_at(positions(chunks), sizes(chunks), order, i)
            &&& steps[i].size == chunk_size(chunks[steps[i].index as int])
            &&& steps[i].decompress == chunk_decompresses(chunks[steps[i].index as int])
        }
}

/// The chunk indices, stably sorted by position.
fn order_by_position(pos: &Vec<usize>) -> (order: Vec<usize>)
    ensures
        by_position(pos@.map_values(|p: usize| p as int), order@.map_values(|k: usize| k as int)),
{
    let ghost ps = pos@.map_values(|p: usize| p as int);
    let mut order: Vec<usize> = Vec::new();
    let mut k: usize = 0;
    while k < pos.len()
        invariant
            k <= pos.len(),
            ps == pos@.map_values(|p: usize| p as int),
            order@.len() == k,
            forall|i: int| 0 <= i < order@.len() ==> #[trigger] order@[i] < k,
            forall|i: int, j: int|
                0 <= i < j < order@.len() ==> (pos@[order@[i] as int] < pos@[order@[j] as int] || (pos@[order@[i] as int]
                    == pos@[order@[j] as int] && order@[i] < order@[j])),
        decreases pos.len() - k,
    {
        let pk = pos[k];
        let mut j: usize = 0;
        while j < order.len() && pos[order[j]] <= pk
            invariant
                j <= order@.len(),
                order@.len() == k,
                k < pos.len(),
                pk == pos@[k as int],
                forall|i: int| 0 <= i < order@.len() ==> #[trigger] order@[i] < k,
                forall|i: int| 0 <= i < j ==> pos@[#[trigger] order@[i] as int] <= pk,
            decreases order@.len() - j,
        {
            j += 1;
        }
        let ghost before = order@;
        order.insert(j, k);
        proof {
            assert(order@ =~= before.insert(j as int, k));
            assert forall|i: int| 0 <= i < order@.len() implies #[trigger] order@[i] < k + 1 by {
                if i < j {
                    assert(order@[i] == before[i]);
                } else if i > j {
                    assert(order@[i] == before[i - 1]);
                }
            }
            assert forall|a: int, b: int|
                0 <= a < b < order@.len() implies (pos@[order@[a] as int] < pos@[order@[b] as int] || (
                pos@[order@[a] as int] == pos@[order@[b] as int] && order@[a] < order@[b])) by {
                if a < j && b < j {
                    assert(order@[a] == before[a] && order@[b] == before[b]);
                } else if a < j && b == j {
                    assert(order@[a] == before[a]);
                    assert(pos@[before[a] as int] <= pk);
                } else if a < j && b > j {
                    assert(order@[a] == before[a] && order@[b] == before[b - 1]);
                } else if a == j {
                    assert(order@[b] == before[b - 1]);
                    // before[j] exists and has a larger position; everything after it too
                    assert(j < before.len());
                    assert(pos@[before[j as int] as int] > pk);
                    if b - 1 > j {
                        assert(pos@[before[j as int] as int] <= pos@[before[b - 1] as int]);
                    }
                } else {
                    assert(order@[a] == before[a - 1] && order@[b] == before[b - 1]);
                }
            }
        }
        k += 1;
    }
    let ghost ord = order@.map_values(|k: usize| k as int);
    assert forall|i: int| 0 <= i < ord.len() implies 0 <= #[trigger] ord[i] < ps.len() by {
        assert(ord[i] == order@[i] as int);
    }
    order
}

/// The steps that read `chunks` from one stream, in position order.
pub fn multichunk_plan(chunks: &Vec<InstallFileArgs>) -> (steps: Vec<ChunkStep>)
    ensures
        steps@.len() == chunks@.len(),
        plan_spec(chunks@, steps@),
{
    let mut pos: Vec<usize> = Vec::new();
    let mut i: usize = 0;
    while i < chunks.len()
        invariant
            i <= chunks.len(),
            pos@.len() == i,
            forall|t: int| 0 <= t < i ==> #[trigger] pos@[t] == chunk_position(chunks@[t]),
        decreases chunks.len() - i,
    {
        pos.push(get_chunk_position(&chunks[i]));
        i += 1;
    }
    let ghost ps = positions(chunks@);
    let ghost zs = sizes(chunks@);
    assert(pos@.map_values(|p: usize| p as int) =~= ps);
    let order = order_by_position(&pos);
    let ghost ord = order@.map_values(|k: usize| k as int);
    let mut steps: Vec<ChunkStep> = Vec::new();
    let mut stream: u128 = 0;
    let mut n: usize = 0;
    while n < order.len()
        invariant
            n <= order@.len(),
            order@.len() == chunks@.len(),
            ps == positions(chunks@),
            zs == sizes(chunks@),
            ord == order@.map_values(|k: usize| k as int),
            by_position(ps, ord),
            steps@.len() == n,
            stream == stream_at(ps, zs, ord, n as int),
            stream <= (n + 1) * 0xFFFF_FFFF_FFFF_FFFFu128,
            forall|t: int| 0 <= t < n ==> #[trigger] steps@[t].index == order@[t],
            forall|t: int|
                0 <= t < n ==> {
                    &&& #[trigger] steps@[t].skip == skip_at(ps, zs, ord, t)
                    &&& steps@[t].size == chunk_size(chunks@[steps@[t].index as int])
                    &&& steps@[t].decompress == chunk_decompresses(chunks@[steps@[t].index as int])
                },
        decreases order@.len() - n,
    {
        let c = order[n];
        assert(ord[n as int] == c as int);
        let a = &chunks[c];
        let p = get_chunk_position(a);
        let z = get_chunk_size(a);
        assert(ps[c as int] == p as int);
        assert(zs[c as int] == z as int);
        let skip: usize = if stream < p as u128 {
            (p as u128 - stream) as usize
        } else {
            0
        };
        steps.push(ChunkStep { index: c, skip, size: z, decompress: should_decompress_chunk(a) });
        let start: u128 = if stream < p as u128 {
            p as u128
        } else {
            stream
        };
        assert(start <= (n + 1) * 0xFFFF_FFFF_FFFF_FFFFu128);
        stream = start + z as u128;
        n += 1;
    }
    assert(step_order(steps@) =~= ord);
    assert forall|t: int| 0 <= t < steps@.len() implies {
        &&& #[trigger] steps@[t].skip == skip_at(positions(chunks@), sizes(chunks@), step_order(steps@), t)
        &&& steps@[t].size == chunk_size(chunks@[steps@[t].index as int])
        &&& steps@[t].decompress == chunk_decompresses(chunks@[steps@[t].index as int])
    } by {}
    assert(by_position(positions(chunks@), step_order(steps@)));
    assert(plan_spec(chunks@, steps@));
    steps
}

// ---------------------------------------------------------------------
// Framing
// ---------------------------------------------------------------------

/// The largest frame body: the bound only guards against a misread header.
pub const MAX_FRAME: usize = 67108864;

/// A length as four little-endian bytes.
pub open spec fn le32(n: nat) -> Seq<u8> {
    seq![(n % 256) as u8, ((n / 256) % 256) as u8, ((n / 65536) % 256) as u8, ((n / 16777216) % 256) as u8]
}

/// The number four little-endian bytes stand for.
pub open spec fn from_le32(b: Seq<u8>) -> nat {
    (b[0] + b[1] * 256 + b[2] * 65536 + b[3] * 16777216) as nat
}

/// A frame: the body's length in four little-endian bytes, then the body;
/// a body over `MAX_FRAME` is refused.
pub fn encode_frame(body: &[u8]) -> (r: Result<Vec<u8>, String>)
    ensures
        match r {
            Ok(f) => body@.len() <= MAX_FRAME && f@ == le32(body@.len()) + body@,
            Err(m) => body@.len() > MAX_FRAME && m@ == "ipc frame too large"@,
        },
{
    if body.len() > MAX_FRAME {
        return Err(String::from_str("ipc frame too large"));
    }
    let n = body.len();
    let mut out: Vec<u8> = Vec::new();
    out.push((n % 256) as u8);
    out.push(((n / 256) % 256) as u8);
    out.push(((n / 65536) % 256) as u8);
    out.push(((n / 16777216) % 256) as u8);
    let mut i: usize = 0;
    while i < body.len()
        invariant
            i <= body@.len(),
            n == body@.len(),
            out@ == le32(n as nat) + body@.take(i as int),
        decreases body@.len() - i,
    {
        out.push(body[i]);
        i += 1;
        assert(body@.take(i as int) == body@.take(i - 1 as int).push(body@[i - 1 as int]));
    }
    assert(body@.take(body@.len() as int) == body@);
    Ok(out)
}

/// The body length a frame header gives, or the error for one over
/// `MAX_FRAME`.
pub fn frame_len(header: [u8; 4]) -> (r: Result<usize, String>)
    ensures
        match r {
            Ok(n) => n == from_le32(header@) && n <= MAX_FRAME,
            Err(m) => from_le32(header@) > MAX_FRAME && m@ == "ipc frame too large"@,
        },
{
    let n: u64 = header[0] as u64 + header[1] as u64 * 256 + header[2] as u64 * 65536 + header[3] as u64
        * 16777216;
    if n > MAX_FRAME as u64 {
        return Err(String::from_str("ipc frame too large"));
    }
    Ok(n as usize)
}

/// A frame's header gives back the length of the body it was made from.
pub proof fn lemma_frame_header_roundtrip(n: nat)
    requires
        n <= MAX_FRAME,
    ensures
        from_le32(le32(n)) == n,
{
    let b = le32(n);
    assert(n % 256 + ((n / 256) % 256) * 256 + ((n / 65536) % 256) * 65536 + ((n / 16777216) % 256) * 16777216
        == n) by (nonlinear_arith)
        requires
            n <= 67108864,
    ;
}

} // verus!
