//! How one file of a release gets installed: copied from the installer's
//! embedded package, patched from an embedded older version, patched from
//! the version on disk, or downloaded whole. Finding where a remote file
//! lives is the host's (it asks the download service).

use vstd::prelude::*;
use vstd::string::StringExecFns;
use crate::builder::{PatchInfo, PatchItem};
use crate::bundle::Embedded;
use crate::ipc::{InstallFileArgs, InstallFileMode, InstallFileSource};
use crate::text::{chars_eq, chars_of};

verus! {

/// Which hash names files.
#[derive(Clone, Copy, Debug, PartialEq, Eq, Structural)]
pub enum HashKey {
    Md5,
    Xxh,
}

impl HashKey {
    /// The name the local scan is given for the hash.
    pub fn algorithm(self) -> (r: &'static str)
        ensures
            r@ == (match self {
                HashKey::Md5 => "md5"@,
                HashKey::Xxh => "xxh"@,
            }),
    {
        match self {
            HashKey::Md5 => "md5",
            HashKey::Xxh => "xxh",
        }
    }
}

/// A side's hash under `key`.
pub open spec fn side_hash_spec(side: PatchItem, key: HashKey) -> Option<Seq<char>> {
    match key {
        HashKey::Md5 => match side.md5 {
            Some(h) => Some(h@),
            None => None,
        },
        HashKey::Xxh => match side.xxh {
            Some(h) => Some(h@),
            None => None,
        },
    }
}

fn side_hash(side: &PatchItem, key: HashKey) -> (r: Option<&String>)
    ensures
        match r {
            Some(h) => side_hash_spec(*side, key) == Some(h@),
            None => side_hash_spec(*side, key) is None,
        },
{
    match key {
        HashKey::Md5 => side.md5.as_ref(),
        HashKey::Xxh => side.xxh.as_ref(),
    }
}

/// How a file is installed; indices are into the lists given.
#[derive(Clone, Copy, Debug, PartialEq, Eq, Structural)]
pub enum Strategy {
    /// Copy the embedded file of that name.
    Embedded(usize),
    /// Patch an embedded older version (`local`) with the remote diff of
    /// `patch`.
    Hybrid { local: usize, patch: usize },
    /// Patch the version on disk with the remote diff of `patch` (falling
    /// back to a download when the diff cannot be found).
    DiskPatch { patch: usize },
    Download,
}

pub open spec fn names(e: Seq<Embedded>) -> Seq<Seq<char>> {
    e.map_values(|x: Embedded| x.name@)
}

/// The first place `x` occurs.
pub open spec fn first_of(s: Seq<Seq<char>>, x: Seq<char>) -> Option<int>
    decreases s.len(),
{
    if s.len() == 0 {
        None
    } else if s[0] == x {
        Some(0)
    } else {
        match first_of(s.skip(1), x) {
            Some(i) => Some(i + 1),
            None => None,
        }
    }
}

/// A patch to `hash` from a file the installer embeds.
pub open spec fn embedded_patch(p: PatchInfo, key: HashKey, hash: Seq<char>, emb: Seq<Seq<char>>) -> bool {
    &&& side_hash_spec(p.to, key) == Some(hash)
    &&& side_hash_spec(p.from, key) is Some
    &&& first_of(emb, side_hash_spec(p.from, key)->Some_0) is Some
}

/// A patch to `hash` from the file on disk (a patch with no source hash
/// fits a file that is not on disk).
pub open spec fn disk_patch(p: PatchInfo, key: HashKey, hash: Seq<char>, disk: Option<Seq<char>>) -> bool {
    side_hash_spec(p.to, key) == Some(hash) && side_hash_spec(p.from, key) == disk
}

pub open spec fn first_patch(
    ps: Seq<PatchInfo>,
    f: spec_fn(PatchInfo) -> bool,
    i: int,
) -> Option<int>
    decreases ps.len() - i,
{
    if i < 0 || i >= ps.len() {
        None
    } else if f(ps[i]) {
        Some(i)
    } else {
        first_patch(ps, f, i + 1)
    }
}

/// The strategy for the file with `hash`: unless patches are skipped, the
/// embedded file itself, else the first patch from an embedded version,
/// else the first patch from the version on disk; else a download.
pub open spec fn strategy_spec(
    hash: Seq<char>,
    key: HashKey,
    emb: Seq<Seq<char>>,
    patches: Seq<PatchInfo>,
    disk: Option<Seq<char>>,
    skip_patch: bool,
) -> Strategy {
    if skip_patch {
        Strategy::Download
    } else {
        match first_of(emb, hash) {
            Some(i) => Strategy::Embedded(i as usize),
            None => match first_patch(patches, |p: PatchInfo| embedded_patch(p, key, hash, emb), 0) {
                Some(p) => Strategy::Hybrid {
                    local: first_of(emb, side_hash_spec(patches[p].from, key)->Some_0)->Some_0 as usize,
                    patch: p as usize,
                },
                None => match first_patch(patches, |p: PatchInfo| disk_patch(p, key, hash, disk), 0) {
                    Some(p) => if side_hash_spec(patches[p].from, key) is Some {
                        Strategy::DiskPatch { patch: p as usize }
                    } else {
                        Strategy::Download
                    },
                    None => Strategy::Download,
                },
            },
        }
    }
}

fn same(a: &str, b: &str) -> (r: bool)
    ensures
        r == (a@ == b@),
{
    chars_eq(&chars_of(a), &chars_of(b))
}

fn find_name(emb: &Vec<Embedded>, x: &str) -> (r: Option<usize>)
    ensures
        match r {
            Some(i) => first_of(names(emb@), x@) == Some(i as int) && i < emb@.len(),
            None => first_of(names(emb@), x@) is None,
        },
{
    let ghost ns = names(emb@);
    let mut i: usize = 0;
    assert(ns.skip(0) =~= ns);
    while i < emb.len()
        invariant
            i <= emb@.len(),
            ns == names(emb@),
            first_of(ns, x@) == match first_of(ns.skip(i as int), x@) {
                Some(k) => Some(k + i),
                None => None,
            },
        decreases emb@.len() - i,
    {
        assert(ns.skip(i as int)[0] == emb@[i as int].name@);
        assert(ns.skip(i as int).skip(1) =~= ns.skip(i + 1));
        if same(emb[i].name.as_str(), x) {
            return Some(i);
        }
        i += 1;
    }
    assert(ns.skip(i as int) =~= Seq::<Seq<char>>::empty());
    None
}

/// How to install the file with `hash`; `disk_hash` is the hash of the
/// version on disk, if there is one.
pub fn choose_strategy(
    hash: &str,
    key: HashKey,
    emb: &Vec<Embedded>,
    patches: &Vec<PatchInfo>,
    disk_hash: Option<&str>,
    skip_patch: bool,
) -> (r: Strategy)
    requires
        patches@.len() <= usize::MAX,
    ensures
        r == strategy_spec(
            hash@,
            key,
            names(emb@),
            patches@,
            match disk_hash {
                Some(d) => Some(d@),
                None => None,
            },
            skip_patch,
        ),
{
    if skip_patch {
        return Strategy::Download;
    }
    if let Some(i) = find_name(emb, hash) {
        return Strategy::Embedded(i);
    }
    let ghost ns = names(emb@);
    let ghost disk = match disk_hash {
        Some(d) => Some(d@),
        None => None,
    };
    let ghost fe = |p: PatchInfo| embedded_patch(p, key, hash@, ns);
    let ghost fd = |p: PatchInfo| disk_patch(p, key, hash@, disk);
    let mut k: usize = 0;
    while k < patches.len()
        invariant
            k <= patches@.len(),
            !skip_patch,
            ns == names(emb@),
            first_of(ns, hash@) is None,
            disk == match disk_hash {
                Some(d) => Some(d@),
                None => None,
            },
            fe == (|p: PatchInfo| embedded_patch(p, key, hash@, ns)),
            first_patch(patches@, fe, 0) == first_patch(patches@, fe, k as int),
        decreases patches@.len() - k,
    {
        let p = &patches[k];
        let to_ok = match side_hash(&p.to, key) {
            Some(t) => same(t.as_str(), hash),
            None => false,
        };
        if to_ok {
            if let Some(from) = side_hash(&p.from, key) {
                if let Some(local) = find_name(emb, from.as_str()) {
                    assert(fe(patches@[k as int]));
                    return Strategy::Hybrid { local, patch: k };
                }
            }
        }
        assert(!fe(patches@[k as int]));
        k += 1;
    }
    let mut k: usize = 0;
    while k < patches.len()
        invariant
            k <= patches@.len(),
            !skip_patch,
            ns == names(emb@),
            first_of(ns, hash@) is None,
            fe == (|p: PatchInfo| embedded_patch(p, key, hash@, ns)),
            first_patch(patches@, fe, 0) is None,
            fd == (|p: PatchInfo| disk_patch(p, key, hash@, disk)),
            disk == match disk_hash {
                Some(d) => Some(d@),
                None => None,
            },
            first_patch(patches@, fd, 0) == first_patch(patches@, fd, k as int),
        decreases patches@.len() - k,
    {
        let p = &patches[k];
        let to_ok = match side_hash(&p.to, key) {
            Some(t) => same(t.as_str(), hash),
            None => false,
        };
        let from_ok = match (side_hash(&p.from, key), disk_hash) {
            (Some(f), Some(d)) => same(f.as_str(), d),
            (None, None) => true,
            _ => false,
        };
        if to_ok && from_ok {
            assert(fd(patches@[k as int]));
            if side_hash(&p.from, key).is_some() {
                return Strategy::DiskPatch { patch: k };
            } else {
                return Strategy::Download;
            }
        }
        assert(!fd(patches@[k as int]));
        k += 1;
    }
    Strategy::Download
}

/// Where a file's bytes are: a URL range, or a range of the installer's
/// own package.
#[derive(Clone, Debug, PartialEq, Eq)]
pub struct FileLocation {
    pub url: Option<String>,
    pub offset: usize,
    pub size: usize,
    pub skip_decompress: bool,
    pub request_range: Option<String>,
}

/// The source a location stands for.
pub fn file_source(loc: FileLocation) -> (r: InstallFileSource)
    ensures
        r == match loc.url {
            Some(url) => InstallFileSource::Url {
                url,
                offset: loc.offset,
                size: loc.size,
                skip_decompress: loc.skip_decompress,
                request_range: loc.request_range,
            },
            None => InstallFileSource::Local { offset: loc.offset, size: loc.size, skip_decompress: loc.skip_decompress },
        },
{
    match loc.url {
        Some(url) => InstallFileSource::Url {
            url,
            offset: loc.offset,
            size: loc.size,
            skip_decompress: loc.skip_decompress,
            request_range: loc.request_range,
        },
        None => InstallFileSource::Local { offset: loc.offset, size: loc.size, skip_decompress: loc.skip_decompress },
    }
}

/// Installing a file from the embedded package.
pub fn embedded_op(local: &Embedded, target: String, md5: Option<String>, xxh: Option<String>, installer: bool) -> (r:
    InstallFileArgs)
    ensures
        r == (InstallFileArgs {
            mode: InstallFileMode::Direct(
                InstallFileSource::Local { offset: local.offset, size: local.size, skip_decompress: false },
            ),
            target,
            md5,
            xxh,
            clear_installer_index_mark: Some(installer),
        }),
{
    InstallFileArgs {
        mode: InstallFileMode::Direct(
            InstallFileSource::Local { offset: local.offset, size: local.size, skip_decompress: false },
        ),
        target,
        md5,
        xxh,
        clear_installer_index_mark: Some(installer),
    }
}

/// Installing a file from a location: whole, or as a patch of
/// `diff_size` bytes.
pub fn url_op(
    loc: FileLocation,
    target: String,
    md5: Option<String>,
    xxh: Option<String>,
    diff_size: Option<usize>,
    installer: bool,
) -> (r: InstallFileArgs)
    ensures
        r.mode == match diff_size {
            Some(d) => InstallFileMode::Patch { source: file_source_spec(loc), diff_size: d },
            None => InstallFileMode::Direct(file_source_spec(loc)),
        },
        r.target == target,
        r.md5 == md5,
        r.xxh == xxh,
        r.clear_installer_index_mark == Some(installer),
{
    let source = file_source(loc);
    let mode = match diff_size {
        Some(d) => InstallFileMode::Patch { source, diff_size: d },
        None => InstallFileMode::Direct(source),
    };
    InstallFileArgs { mode, target, md5, xxh, clear_installer_index_mark: Some(installer) }
}

/// Patching an embedded older version with a remote diff.
pub fn hybrid_op(local: &Embedded, loc: FileLocation, target: String, md5: Option<String>, xxh: Option<String>) -> (r:
    InstallFileArgs)
    ensures
        r.mode == (InstallFileMode::HybridPatch {
            diff: file_source_spec(loc),
            source: InstallFileSource::Local { offset: local.offset, size: local.size, skip_decompress: false },
        }),
        r.target == target,
        r.md5 == md5,
        r.xxh == xxh,
        r.clear_installer_index_mark is None,
{
    InstallFileArgs {
        mode: InstallFileMode::HybridPatch {
            diff: file_source(loc),
            source: InstallFileSource::Local { offset: local.offset, size: local.size, skip_decompress: false },
        },
        target,
        md5,
        xxh,
        clear_installer_index_mark: None,
    }
}

pub open spec fn file_source_spec(loc: FileLocation) -> InstallFileSource {
    match loc.url {
        Some(url) => InstallFileSource::Url {
            url,
            offset: loc.offset,
            size: loc.size,
            skip_decompress: loc.skip_decompress,
            request_range: loc.request_range,
        },
        None => InstallFileSource::Local { offset: loc.offset, size: loc.size, skip_decompress: loc.skip_decompress },
    }
}

/// The name a patch's diff is published under.
pub fn diff_name(from: &str, to: &str) -> (r: String)
    ensures
        r@ == from@ + seq!['_'] + to@,
{
    let mut s = String::from_str(from);
    s.push('_');
    s.append(to);
    s
}

} // verus!
