//! The package builder: its command line, the metadata it writes for a
//! release, and the decisions it makes while generating files and patches.
//! Reading, hashing, compressing and diffing files is the host's work.

use vstd::prelude::*;
use vstd::string::StringExecFns;
use crate::text::{chars_of, contains, find_exec, find_seq, slashes, slice_chars, string_of, str_contains};

verus! {

/// A file of a release: its path under the release (`/`-separated), its
/// size and its hashes.
#[derive(Clone, Debug, PartialEq, Eq)]
pub struct Metadata {
    pub file_name: String,
    pub size: u64,
    pub md5: Option<String>,
    pub xxh: Option<String>,
}

/// One side of a patch.
#[derive(Clone, Debug, PartialEq, Eq)]
pub struct PatchItem {
    pub size: u64,
    pub md5: Option<String>,
    pub xxh: Option<String>,
}

/// A patch from one version of a file to another.
#[derive(Clone, Debug, PartialEq, Eq)]
pub struct PatchInfo {
    pub file_name: String,
    pub size: u64,
    pub from: PatchItem,
    pub to: PatchItem,
}

/// The updater shipped beside a release.
#[derive(Clone, Debug, PartialEq, Eq)]
pub struct InstallerInfo {
    pub size: u64,
    pub md5: Option<String>,
    pub xxh: Option<String>,
}

/// What a release holds.
#[derive(Clone, Debug, PartialEq, Eq)]
pub struct RepoMetadata {
    pub repo_name: String,
    pub tag_name: String,
    pub assets: Option<Vec<Metadata>>,
    pub hashed: Option<Vec<Metadata>>,
    pub patches: Option<Vec<PatchInfo>>,
    pub installer: Option<InstallerInfo>,
    pub deletes: Option<Vec<String>>,
}

/// Options of `pack`: bundle a config, metadata, image and data files
/// onto the installer.
#[derive(Clone, Debug, PartialEq, Eq)]
pub struct PackArgs {
    pub output: String,
    pub config: String,
    pub image: Option<String>,
    pub metadata: Option<String>,
    pub data_dir: Option<String>,
}

/// Options of `gen`: hash, compress and diff a release.
#[derive(Clone, Debug, PartialEq, Eq)]
pub struct GenArgs {
    pub input_dir: String,
    pub output_metadata: String,
    pub output_dir: String,
    pub repo: String,
    pub tag: String,
    pub diff_vers: Option<Vec<String>>,
    pub diff_ignore: Option<Vec<String>>,
}

/// What the builder is asked to do.
#[derive(Clone, Debug, PartialEq, Eq)]
pub enum Command {
    Pack(PackArgs),
    Gen(GenArgs),
}

/// The builder's command line.
#[derive(Clone, Debug, PartialEq, Eq)]
pub struct Cli {
    pub command: Option<Command>,
}

impl PackArgs {
    /// The options with their defaults: `output.exe` and `.config.json`.
    pub fn defaults() -> (r: PackArgs)
        ensures
            r.output@ == "output.exe"@,
            r.config@ == ".config.json"@,
            r.image is None,
            r.metadata is None,
            r.data_dir is None,
    {
        PackArgs {
            output: String::from_str("output.exe"),
            config: String::from_str(".config.json"),
            image: None,
            metadata: None,
            data_dir: None,
        }
    }
}

/// `s` without the first occurrence of `pat`.
pub open spec fn remove_first(s: Seq<char>, pat: Seq<char>) -> Seq<char> {
    match find_seq(s, pat) {
        Some(i) => s.take(i) + s.skip(i + pat.len()),
        None => s,
    }
}

/// A file's name in the metadata: its path with `/` separators, without
/// the first occurrence of the source directory and a `/`.
pub open spec fn release_name_spec(path: Seq<char>, source: Seq<char>) -> Seq<char> {
    remove_first(slashes(path), source + seq!['/'])
}

/// A file's name in the metadata, from its path and the release's
/// directory.
pub fn release_name(path: &str, source: &str) -> (r: String)
    ensures
        r@ == release_name_spec(path@, source@),
{
    let cs = chars_of(path);
    let mut norm: Vec<char> = Vec::new();
    let mut i: usize = 0;
    while i < cs.len()
        invariant
            i <= cs.len(),
            cs@ == path@,
            norm@ == slashes(cs@.take(i as int)),
        decreases cs.len() - i,
    {
        norm.push(if cs[i] == '\\' { '/' } else { cs[i] });
        i += 1;
        assert(norm@ =~= slashes(cs@.take(i as int)));
    }
    assert(cs@.take(cs.len() as int) =~= cs@);
    let mut pat = chars_of(source);
    pat.push('/');
    assert(norm@ == slashes(path@));
    assert(pat@ == source@ + seq!['/']);
    match find_exec(&norm, &pat) {
        Some(k) => {
            let mut out = slice_chars(&norm, 0, k);
            let rest = slice_chars(&norm, k + pat.len(), norm.len());
            let mut j: usize = 0;
            let ghost head = out@;
            while j < rest.len()
                invariant
                    j <= rest.len(),
                    out@ == head + rest@.take(j as int),
                decreases rest.len() - j,
            {
                out.push(rest[j]);
                j += 1;
                assert(out@ =~= head + rest@.take(j as int));
            }
            assert(rest@.take(rest.len() as int) =~= rest@);
            assert(out@ =~= norm@.take(k as int) + norm@.skip(k + pat@.len()));
            string_of(&out)
        },
        None => string_of(&norm),
    }
}

/// The files of a release without the updater, which is shipped on its
/// own: those whose xxh differs from the updater's.
pub open spec fn without_updater(files: Seq<Metadata>, updater_xxh: Seq<char>) -> Seq<Metadata>
    decreases files.len(),
{
    if files.len() == 0 {
        Seq::empty()
    } else {
        let rest = without_updater(files.drop_last(), updater_xxh);
        if files.last().xxh->Some_0@ == updater_xxh {
            rest
        } else {
            rest.push(files.last())
        }
    }
}

fn copy_opt(o: &Option<String>) -> (r: Option<String>)
    ensures
        r == *o,
{
    match o {
        Some(s) => Some(s.clone()),
        None => None,
    }
}

fn copy_meta(m: &Metadata) -> (r: Metadata)
    ensures
        r == *m,
{
    Metadata { file_name: m.file_name.clone(), size: m.size, md5: copy_opt(&m.md5), xxh: copy_opt(&m.xxh) }
}

fn same_text(a: &str, b: &str) -> (r: bool)
    ensures
        r == (a@ == b@),
{
    let x = chars_of(a);
    let y = chars_of(b);
    crate::text::chars_eq(&x, &y)
}

/// Drops the updater from a release's files. Every file has an xxh hash,
/// as the builder's hashing gives each one.
pub fn drop_updater(files: &Vec<Metadata>, updater_xxh: &str) -> (r: Vec<Metadata>)
    requires
        forall|i: int| 0 <= i < files@.len() ==> (#[trigger] files@[i]).xxh is Some,
    ensures
        r@ == without_updater(files@, updater_xxh@),
{
    let mut out: Vec<Metadata> = Vec::new();
    let mut i: usize = 0;
    while i < files.len()
        invariant
            i <= files@.len(),
            forall|t: int| 0 <= t < files@.len() ==> (#[trigger] files@[t]).xxh is Some,
            out@ == without_updater(files@.take(i as int), updater_xxh@),
        decreases files@.len() - i,
    {
        assert(files@.take(i + 1 as int).drop_last() =~= files@.take(i as int));
        assert(files@.take(i + 1 as int).last() == files@[i as int]);
        let f = &files[i];
        let x = match &f.xxh {
            Some(x) => x,
            None => {
                assert(false);
                return out;
            },
        };
        if !same_text(x.as_str(), updater_xxh) {
            out.push(copy_meta(f));
        }
        i += 1;
    }
    assert(files@.take(files@.len() as int) =~= files@);
    out
}

/// The name a file is stored under in the output: its xxh hash, else its
/// md5; none for a file without a hash.
pub fn stored_name(file: &Metadata) -> (r: Option<String>)
    ensures
        r == (if file.xxh is Some { file.xxh } else { file.md5 }),
{
    match &file.xxh {
        Some(x) => Some(x.clone()),
        None => copy_opt(&file.md5),
    }
}

/// Why a file gets no patch from an older version.
#[derive(Clone, Copy, Debug, PartialEq, Eq, Structural)]
pub enum DiffSkip {
    /// An ignore rule matches it.
    Ignored,
    /// Under 1 MiB: a patch would save little.
    TooSmall,
    /// The older version has no such file.
    Missing,
    /// The older version's file is the same.
    Unchanged,
}

/// Before hashing the older file: whether to skip the patch, in the order
/// the reasons are checked. `None`: hash the older file.
pub fn diff_precheck(size: u64, ignored: bool, old_exists: bool) -> (r: Option<DiffSkip>)
    ensures
        r == (if ignored {
            Some(DiffSkip::Ignored)
        } else if size < 1048576 {
            Some(DiffSkip::TooSmall)
        } else if !old_exists {
            Some(DiffSkip::Missing)
        } else {
            None
        }),
{
    if ignored {
        Some(DiffSkip::Ignored)
    } else if size < 1048576 {
        Some(DiffSkip::TooSmall)
    } else if !old_exists {
        Some(DiffSkip::Missing)
    } else {
        None
    }
}

/// After hashing the older file: skip when it is the same as the new one.
pub fn diff_after_hash(old_xxh: &str, new_xxh: &str) -> (r: Option<DiffSkip>)
    ensures
        r == (if old_xxh@ == new_xxh@ { Some(DiffSkip::Unchanged) } else { None }),
{
    if same_text(old_xxh, new_xxh) {
        Some(DiffSkip::Unchanged)
    } else {
        None
    }
}

/// The names of a patch's files: the raw diff `old_new.hdiff`, and the
/// compressed one `old_new` that is published.
pub fn patch_names(old_xxh: &str, new_xxh: &str) -> (r: (String, String))
    ensures
        r.0@ == old_xxh@ + seq!['_'] + new_xxh@ + ".hdiff"@,
        r.1@ == old_xxh@ + seq!['_'] + new_xxh@,
{
    let mut c = String::from_str(old_xxh);
    c.push('_');
    c.append(new_xxh);
    let mut d = c.clone();
    d.append(".hdiff");
    (d, c)
}

/// A compressed patch is kept only when it is at most half the new file.
pub fn keep_diff(diff_size: u64, file_size: u64) -> (r: bool)
    ensures
        r == (diff_size <= file_size / 2),
{
    diff_size <= file_size / 2
}

/// Which files of the data directory are packed: those whose name has no
/// `_`.
pub fn packs_file(name: &str) -> (r: bool)
    ensures
        r == !contains(name@, seq!['_']),
{
    proof {
        reveal_strlit("_");
        assert("_"@ =~= seq!['_']);
    }
    !str_contains(name, "_")
}

/// A path with no leading separator and no drive: one that every platform
/// reads as relative.
pub open spec fn plain_relative(path: Seq<char>) -> bool {
    &&& !(path.len() > 0 && (path[0] == '/' || path[0] == '\\'))
    &&& !contains(path, seq![':'])
}

pub open spec fn text_views(v: Seq<String>) -> Seq<Seq<char>> {
    v.map_values(|s: String| s@)
}

/// Whether the gitignore rules `lines` (rooted at `/`) ignore `path` or
/// one of its parent directories, as the `ignore` crate matches them;
/// `None` when a line is not a valid glob.
pub uninterp spec fn gitignore_match_of(lines: Seq<Seq<char>>, path: Seq<char>) -> Option<bool>;

/// `ignore::gitignore::GitignoreBuilder` rooted at `/`, with each line
/// added, built, then `matched_path_or_any_parents(path, false).is_ignore()`
/// (named `gitignore_match_of`). With no lines the matcher is empty and
/// ignores nothing. A path under the root is required: the matcher panics
/// on a rooted one.
#[verifier::external_body]
fn gitignore_match(lines: &Vec<String>, path: &str) -> (r: Option<bool>)
    requires
        plain_relative(path@),
    ensures
        r == gitignore_match_of(text_views(lines@), path@),
        lines@.len() == 0 ==> r == Some(false),
{
    let mut b = ignore::gitignore::GitignoreBuilder::new("/");
    for l in lines.iter() {
        b.add_line(None, l).ok()?;
    }
    let g = b.build().ok()?;
    Some(g.matched_path_or_any_parents(path, false).is_ignore())
}

/// Whether the `--diff-ignore` rules exclude a file from patching; `None`
/// when a rule is not a valid glob.
pub fn diff_ignored(diff_ignore: &Option<Vec<String>>, file_name: &str) -> (r: Option<bool>)
    requires
        plain_relative(file_name@),
    ensures
        r == match diff_ignore {
            Some(lines) => gitignore_match_of(text_views(lines@), file_name@),
            None => Some(false),
        },
{
    match diff_ignore {
        Some(lines) => gitignore_match(lines, file_name),
        None => {
            let none: Vec<String> = Vec::new();
            gitignore_match(&none, file_name)
        },
    }
}

} // verus!
