//! Scanning an install directory: naming its files the way the scan
//! compares them (relative, with `/`, lowercase), the rules of the walk
//! (which directories hold managed files, which hold only user data, what
//! each entry is), and which found files are hashed.

use vstd::prelude::*;
use crate::text::{chars_of, lower, lowercase, push_chars, slashes, split_chars, split_on, string_of, trim_start_char, trim_start_char_exec};
use vstd::string::StringExecFns;
use crate::lookup::{TextMap, TextSet};

verus! {

/// A file found in the install directory.
#[derive(Clone, Debug, PartialEq, Eq)]
pub struct Metadata {
    pub file_name: String,
    pub hash: String,
    pub size: u64,
    pub unwritable: bool,
}

/// One pass over the install directory.
#[derive(Clone, Debug, PartialEq, Eq)]
pub struct LocalScan {
    pub files: Vec<Metadata>,
    /// Directories (relative, `/`, lowercase, `""` for the root) holding
    /// something the metadata does not manage; such a directory cannot be
    /// swapped as one unit.
    pub dirty_dirs: Vec<String>,
    /// Subdirectories that are junctions or links; managed files under them
    /// are committed by copy.
    pub reparse_dirs: Vec<String>,
}

impl LocalScan {
    /// A scan that found nothing.
    pub fn empty() -> (r: LocalScan)
        ensures
            r.files@.len() == 0,
            r.dirty_dirs@.len() == 0,
            r.reparse_dirs@.len() == 0,
    {
        LocalScan { files: Vec::new(), dirty_dirs: Vec::new(), reparse_dirs: Vec::new() }
    }
}

/// A metadata name as the scan compares it: `/` separators, no leading
/// `/`, lowercase.
pub open spec fn norm_rel_spec(name: Seq<char>) -> Seq<char> {
    lowercase(trim_start_char(slashes(name), '/'))
}

/// A metadata name as the scan compares it.
pub fn norm_rel(name: &str) -> (r: String)
    ensures
        r@ == norm_rel_spec(name@),
{
    let cs = chars_of(name);
    let mut v: Vec<char> = Vec::new();
    let mut i: usize = 0;
    while i < cs.len()
        invariant
            i <= cs.len(),
            cs@ == name@,
            v@ == slashes(cs@.take(i as int)),
        decreases cs.len() - i,
    {
        v.push(if cs[i] == '\\' { '/' } else { cs[i] });
        i += 1;
        assert(slashes(cs@.take(i as int)) =~= slashes(cs@.take(i - 1 as int)).push(
            if cs@[i - 1 as int] == '\\' { '/' } else { cs@[i - 1 as int] },
        ));
    }
    assert(cs@.take(cs.len() as int) == cs@);
    let t = trim_start_char_exec(&v, '/');
    lower(string_of(&t).as_str())
}

/// A child's name under a directory, lowercased.
pub open spec fn join_lower_spec(dir: Seq<char>, name: Seq<char>) -> Seq<char> {
    if dir.len() == 0 {
        lowercase(name)
    } else {
        dir + seq!['/'] + lowercase(name)
    }
}

/// A child's name under a directory, lowercased.
pub fn join_lower(dir: &str, name: &str) -> (r: String)
    ensures
        r@ == join_lower_spec(dir@, name@),
{
    let low = lower(name);
    if chars_of(dir).len() == 0 {
        low
    } else {
        let mut s = String::from_str(dir);
        s.push('/');
        s.append(low.as_str());
        s
    }
}

/// The running joins of `dirs`: each the previous joined to the next part by
/// `/` (no `/` after an empty join).
pub open spec fn running_joins(dirs: Seq<Seq<char>>) -> Seq<Seq<char>>
    decreases dirs.len(),
{
    if dirs.len() == 0 {
        Seq::empty()
    } else {
        let prev = running_joins(dirs.drop_last());
        let acc = if prev.len() == 0 { Seq::<char>::empty() } else { prev.last() };
        prev.push(if acc.len() == 0 { dirs.last() } else { acc + seq!['/'] + dirs.last() })
    }
}

/// The directories a relative path lies in: the root, then each ancestor.
pub open spec fn parent_dirs_spec(rel: Seq<char>) -> Seq<Seq<char>> {
    let parts = split_on(rel, '/');
    seq![Seq::<char>::empty()] + running_joins(parts.take(parts.len() - 1))
}

/// The directories a relative path lies in: the root, then each ancestor.
pub fn parent_dirs(rel: &str) -> (r: Vec<String>)
    ensures
        r@.len() == parent_dirs_spec(rel@).len(),
        forall|i: int| 0 <= i < r@.len() ==> #[trigger] r@[i]@ == parent_dirs_spec(rel@)[i],
{
    let cs = chars_of(rel);
    let parts = split_chars(&cs, '/');
    let ghost pv = split_on(rel@, '/');
    proof {
        crate::text::lemma_split_nonempty(rel@, '/');
    }
    let n = parts.len() - 1;
    let ghost dirs = pv.take(n as int);
    let mut out: Vec<String> = Vec::new();
    out.push(String::new());
    let mut acc: Vec<char> = Vec::new();
    let mut k: usize = 0;
    while k < n
        invariant
            k <= n,
            n + 1 == parts@.len() == pv.len(),
            dirs == pv.take(n as int),
            forall|m: int| 0 <= m < pv.len() ==> #[trigger] parts@[m]@ == pv[m],
            out@.len() == k + 1,
            out@[0]@ == Seq::<char>::empty(),
            forall|m: int| 1 <= m <= k ==> #[trigger] out@[m]@ == running_joins(dirs.take(k as int))[m - 1],
            running_joins(dirs.take(k as int)).len() == k,
            acc@ == if k == 0 { Seq::<char>::empty() } else { running_joins(dirs.take(k as int)).last() },
        decreases n - k,
    {
        let ghost t = dirs.take(k as int + 1);
        assert(t.drop_last() == dirs.take(k as int));
        assert(t.last() == pv[k as int]);
        if acc.len() != 0 {
            acc.push('/');
        }
        let ghost before = acc@;
        let part = &parts[k];
        let mut j: usize = 0;
        while j < part.len()
            invariant
                j <= part.len(),
                acc@ == before + part@.take(j as int),
            decreases part.len() - j,
        {
            acc.push(part[j]);
            j += 1;
            assert(part@.take(j as int) == part@.take(j - 1 as int).push(part@[j - 1 as int]));
        }
        assert(part@.take(part.len() as int) == part@);
        out.push(string_of(&acc));
        k += 1;
    }
    assert(dirs.take(n as int) == dirs);
    assert forall|i: int| 0 <= i < out@.len() implies #[trigger] out@[i]@ == parent_dirs_spec(rel@)[i] by {
        if i > 0 {
            assert(parent_dirs_spec(rel@)[i] == running_joins(dirs)[i - 1]);
        }
    }
    out
}


/// Some name of `skip` names `rel` as the scan compares names.
pub open spec fn skipped(skip: Seq<String>, rel: Seq<char>) -> bool {
    exists|j: int| 0 <= j < skip.len() && #[trigger] norm_rel_spec(skip[j]@) == norm_rel_spec(rel)
}

/// Found files (path under the directory, size) that are to be hashed.
pub open spec fn to_hash(skip: Seq<String>) -> spec_fn((String, u64)) -> bool {
    |e: (String, u64)| !skipped(skip, e.0@)
}

/// Found files whose size alone is compared.
pub open spec fn stat_only(skip: Seq<String>) -> spec_fn((String, u64)) -> bool {
    |e: (String, u64)| skipped(skip, e.0@)
}

/// Splits what a scan found (path under the directory, size) into the files
/// to hash and those named in `skip`, whose size alone is compared; each
/// part in the order found.
pub fn split_by_skip(stat: &Vec<(String, u64)>, skip: &Vec<String>) -> (r: (
    Vec<(String, u64)>,
    Vec<(String, u64)>,
))
    ensures
        r.0@ == stat@.filter(to_hash(skip@)),
        r.1@ == stat@.filter(stat_only(skip@)),
{
    let mut norms: Vec<Vec<char>> = Vec::new();
    let mut j: usize = 0;
    while j < skip.len()
        invariant
            j <= skip@.len(),
            norms@.len() == j,
            forall|k: int| 0 <= k < j ==> #[trigger] norms@[k]@ == norm_rel_spec(skip@[k]@),
        decreases skip@.len() - j,
    {
        norms.push(chars_of(norm_rel(skip[j].as_str()).as_str()));
        j += 1;
    }
    let mut hashed: Vec<(String, u64)> = Vec::new();
    let mut stated: Vec<(String, u64)> = Vec::new();
    let mut i: usize = 0;
    while i < stat.len()
        invariant
            i <= stat@.len(),
            norms@.len() == skip@.len(),
            forall|k: int| 0 <= k < skip@.len() ==> #[trigger] norms@[k]@ == norm_rel_spec(skip@[k]@),
            hashed@ == stat@.take(i as int).filter(to_hash(skip@)),
            stated@ == stat@.take(i as int).filter(stat_only(skip@)),
        decreases stat@.len() - i,
    {
        let key = chars_of(norm_rel(stat[i].0.as_str()).as_str());
        let mut found = false;
        let mut k: usize = 0;
        while k < norms.len()
            invariant
                k <= norms@.len(),
                norms@.len() == skip@.len(),
                forall|q: int| 0 <= q < skip@.len() ==> #[trigger] norms@[q]@ == norm_rel_spec(skip@[q]@),
                key@ == norm_rel_spec(stat@[i as int].0@),
                found == exists|q: int| 0 <= q < k && #[trigger] norm_rel_spec(skip@[q]@) == key@,
            decreases norms@.len() - k,
        {
            if crate::text::chars_eq(&norms[k], &key) {
                found = true;
            }
            k += 1;
        }
        assert(found == skipped(skip@, stat@[i as int].0@));
        let ghost prefix = stat@.take(i as int);
        assert(stat@.take(i + 1 as int).drop_last() =~= prefix);
        assert(stat@.take(i + 1 as int).last() == stat@[i as int]);
        proof {
            reveal(Seq::filter);
        }
        let e = (stat[i].0.clone(), stat[i].1);
        if found {
            stated.push(e);
        } else {
            hashed.push(e);
        }
        i += 1;
    }
    assert(stat@.take(stat@.len() as int) =~= stat@);
    (hashed, stated)
}


/// The texts among the first `i` of `s`.
pub open spec fn first_texts(s: Seq<Seq<char>>, i: int) -> Set<Seq<char>> {
    Set::new(|x: Seq<char>| exists|j: int| 0 <= j < i && s[j] == x)
}

proof fn lemma_first_texts_push(s: Seq<Seq<char>>, i: int)
    requires
        0 <= i < s.len(),
    ensures
        first_texts(s, i + 1) == first_texts(s, i).insert(s[i]),
{
    assert forall|x: Seq<char>| #[trigger] first_texts(s, i + 1).contains(x) implies first_texts(s, i).insert(
        s[i],
    ).contains(x) by {
        let j = choose|j: int| 0 <= j < i + 1 && s[j] == x;
        if j < i {
            assert(first_texts(s, i).contains(x));
        }
    }
    assert forall|x: Seq<char>| #[trigger] first_texts(s, i).insert(s[i]).contains(x) implies first_texts(
        s,
        i + 1,
    ).contains(x) by {
        if x != s[i] {
            let j = choose|j: int| 0 <= j < i && s[j] == x;
            assert(0 <= j < i + 1 && s[j] == x);
        }
    }
    assert(first_texts(s, i + 1) =~= first_texts(s, i).insert(s[i]));
}

/// The directories (relative, `/`, lowercase, `""` for the root) that hold
/// one of the first `k` managed names.
pub open spec fn dirs_upto(managed: Seq<Seq<char>>, k: int) -> Set<Seq<char>>
    decreases k,
{
    if k <= 0 {
        Set::empty()
    } else {
        dirs_upto(managed, k - 1).union(first_texts(parent_dirs_spec(managed[k - 1]), parent_dirs_spec(managed[k - 1]).len() as int))
    }
}

/// The directories that hold one of the first `k` managed names that is not
/// hash-skipped.
pub open spec fn mixed_upto(managed: Seq<Seq<char>>, skip: Set<Seq<char>>, k: int) -> Set<Seq<char>>
    decreases k,
{
    if k <= 0 {
        Set::empty()
    } else if skip.contains(managed[k - 1]) {
        mixed_upto(managed, skip, k - 1)
    } else {
        mixed_upto(managed, skip, k - 1).union(first_texts(parent_dirs_spec(managed[k - 1]), parent_dirs_spec(managed[k - 1]).len() as int))
    }
}

/// Which directories the managed files (names as the scan compares them)
/// lie in, and which of those hold a file that is hashed.
pub struct ScanDirs {
    pub managed: TextSet,
    pub mixed: TextSet,
}

/// Collects [`ScanDirs`] from the managed names and the hash-skipped ones.
pub fn scan_dirs(managed: &Vec<String>, skip: &TextSet) -> (r: ScanDirs)
    ensures
        r.managed@ == dirs_upto(crate::sorted::views(managed@), managed@.len() as int),
        r.mixed@ == mixed_upto(crate::sorted::views(managed@), skip@, managed@.len() as int),
{
    let ghost mv = crate::sorted::views(managed@);
    let mut dirs = TextSet::new();
    let mut mixed = TextSet::new();
    let mut k: usize = 0;
    while k < managed.len()
        invariant
            k <= managed@.len(),
            mv == crate::sorted::views(managed@),
            dirs@ == dirs_upto(mv, k as int),
            mixed@ == mixed_upto(mv, skip@, k as int),
        decreases managed@.len() - k,
    {
        let pd = parent_dirs(managed[k].as_str());
        let ghost pv = parent_dirs_spec(mv[k as int]);
        let hashed = !skip.contains(managed[k].as_str());
        let ghost d0 = dirs@;
        let ghost m0 = mixed@;
        let mut i: usize = 0;
        assert(first_texts(pv, 0) =~= Set::<Seq<char>>::empty());
        while i < pd.len()
            invariant
                i <= pd@.len(),
                pd@.len() == pv.len(),
                forall|q: int| 0 <= q < pd@.len() ==> #[trigger] pd@[q]@ == pv[q],
                dirs@ == d0.union(first_texts(pv, i as int)),
                hashed ==> mixed@ == m0.union(first_texts(pv, i as int)),
                !hashed ==> mixed@ == m0,
            decreases pd@.len() - i,
        {
            proof {
                lemma_first_texts_push(pv, i as int);
            }
            dirs.insert(pd[i].clone());
            if hashed {
                mixed.insert(pd[i].clone());
            }
            assert(d0.union(first_texts(pv, i + 1 as int)) =~= d0.union(first_texts(pv, i as int)).insert(pv[i as int]));
            assert(m0.union(first_texts(pv, i + 1 as int)) =~= m0.union(first_texts(pv, i as int)).insert(pv[i as int]));
            i += 1;
        }
        k += 1;
    }
    ScanDirs { managed: dirs, mixed }
}

impl ScanDirs {
    /// A directory other than the root whose managed files are all
    /// hash-skipped (user data).
    pub open spec fn all_skipped(&self, d: Seq<char>) -> bool {
        d.len() > 0 && self.managed@.contains(d) && !self.mixed@.contains(d)
    }
}

/// A directory lies on the path of managed name `m`.
pub open spec fn on_path(m: Seq<char>, d: Seq<char>) -> bool {
    crate::sorted::holds_text(parent_dirs_spec(m), d)
}

proof fn lemma_dirs_upto(managed: Seq<Seq<char>>, skip: Set<Seq<char>>, n: int, d: Seq<char>)
    requires
        0 <= n <= managed.len(),
    ensures
        dirs_upto(managed, n).contains(d) <==> exists|k: int| 0 <= k < n && #[trigger] on_path(managed[k], d),
        mixed_upto(managed, skip, n).contains(d) <==> exists|k: int|
            0 <= k < n && !skip.contains(managed[k]) && #[trigger] on_path(managed[k], d),
    decreases n,
{
    if n > 0 {
        lemma_dirs_upto(managed, skip, n - 1, d);
        let pv = parent_dirs_spec(managed[n - 1]);
        assert(first_texts(pv, pv.len() as int).contains(d) <==> on_path(managed[n - 1], d));
        if on_path(managed[n - 1], d) {
            assert(exists|k: int| 0 <= k < n && #[trigger] on_path(managed[k], d));
        }
    }
}

/// A directory counts as user data (its managed files are all hash-skipped,
/// so the walk stats them one by one) exactly when it is not the root, some
/// managed file lies under it, and every managed file under it is skipped.
pub proof fn lemma_all_skipped_dirs(managed: Seq<Seq<char>>, skip: Set<Seq<char>>, d: Seq<char>)
    ensures
        (d.len() > 0 && dirs_upto(managed, managed.len() as int).contains(d) && !mixed_upto(
            managed,
            skip,
            managed.len() as int,
        ).contains(d)) <==> (d.len() > 0 && (exists|k: int| 0 <= k < managed.len() && #[trigger] on_path(managed[k], d))
            && (forall|k: int| 0 <= k < managed.len() && #[trigger] on_path(managed[k], d) ==> skip.contains(managed[k]))),
{
    lemma_dirs_upto(managed, skip, managed.len() as int, d);
}

/// What the scan does with one entry of a directory it walks.
#[derive(Clone, Debug, PartialEq, Eq)]
pub enum WalkStep {
    /// A junction or link: record it and stat the managed files under it.
    Reparse,
    /// A directory that holds no managed file: the parent is dirty.
    Unmanaged,
    /// A directory of hash-skipped files only: stat them one by one.
    StatEach,
    /// A directory to walk into.
    Descend,
    /// A managed file, by the name the metadata gives it.
    Stat(String),
    /// A file the metadata does not manage: the parent is dirty.
    Stranger,
}

/// How the scan treats the entry `sub_rel` (relative, `/`, lowercase):
/// links first, then directories by whether they hold managed files and
/// whether those are all skipped, then files by whether they are managed.
/// `names` maps each managed name as the scan compares it to the name the
/// metadata gives.
pub fn walk_step(sub_rel: &str, is_link: bool, is_dir: bool, dirs: &ScanDirs, names: &TextMap) -> (r: WalkStep)
    ensures
        is_link ==> r == WalkStep::Reparse,
        !is_link && is_dir && !dirs.managed@.contains(sub_rel@) ==> r == WalkStep::Unmanaged,
        !is_link && is_dir && dirs.managed@.contains(sub_rel@) && dirs.all_skipped(sub_rel@) ==> r
            == WalkStep::StatEach,
        !is_link && is_dir && dirs.managed@.contains(sub_rel@) && !dirs.all_skipped(sub_rel@) ==> r
            == WalkStep::Descend,
        !is_link && !is_dir && names@.contains_key(sub_rel@) ==> (r matches WalkStep::Stat(n) && n@
            == names@[sub_rel@]),
        !is_link && !is_dir && !names@.contains_key(sub_rel@) ==> r == WalkStep::Stranger,
{
    if is_link {
        WalkStep::Reparse
    } else if is_dir {
        if !dirs.managed.contains(sub_rel) {
            WalkStep::Unmanaged
        } else if chars_of(sub_rel).len() > 0 && !dirs.mixed.contains(sub_rel) {
            WalkStep::StatEach
        } else {
            WalkStep::Descend
        }
    } else {
        match names.get(sub_rel) {
            Some(n) => WalkStep::Stat(n.clone()),
            None => WalkStep::Stranger,
        }
    }
}

/// Whether a walked directory stays clean after one of its entries: only a
/// managed file, or a subdirectory that was itself clean, keeps it clean.
pub fn keeps_clean(step: &WalkStep, sub_clean: bool) -> (r: bool)
    ensures
        r == match step {
            WalkStep::Stat(_) => true,
            WalkStep::Descend => sub_clean,
            _ => false,
        },
{
    match step {
        WalkStep::Stat(_) => true,
        WalkStep::Descend => sub_clean,
        _ => false,
    }
}

} // verus!
