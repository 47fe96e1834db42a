//! The mirror service's update archives: the directory their entries share,
//! which entries are the archive's own files, the digest check, and the
//! paths an archive deletes.

use vstd::prelude::*;
use vstd::string::StringExecFns;
use crate::sorted::{same_texts, sorted_unique, strictly_sorted, views};
use crate::text::{ascii_down, ascii_lower, chars_eq, chars_of, forward_slashes, has_prefix, slashes, last_index, rfind_char, starts_with_chars, string_of, slice_chars};

verus! {

/// `p` is a prefix of every text in `strs`.
pub open spec fn common_prefix(p: Seq<char>, strs: Seq<Seq<char>>) -> bool {
    forall|i: int| 0 <= i < strs.len() ==> has_prefix(#[trigger] strs[i], p)
}

/// The longest text that begins every one of `strs`; empty for none.
pub fn longest_common_prefix(strs: Vec<String>) -> (r: String)
    ensures
        strs@.len() == 0 ==> r@.len() == 0,
        strs@.len() > 0 ==> common_prefix(r@, views(strs@)),
        forall|q: Seq<char>|
            strs@.len() > 0 && #[trigger] common_prefix(q, views(strs@)) ==> q.len()
                <= r@.len(),
{
    if strs.len() == 0 {
        return String::new();
    }
    let ghost sv = views(strs@);
    let first = chars_of(strs[0].as_str());
    let mut n: usize = first.len();
    let mut i: usize = 0;
    assert(first@.take(n as int) == first@);
    assert forall|q: Seq<char>| #[trigger] common_prefix(q, sv) implies q.len() <= n by {
        assert(has_prefix(sv[0], q));
    }
    while i < strs.len()
        invariant
            sv == views(strs@),
            sv.len() > 0,
            first@ == sv[0],
            0 <= i <= strs.len(),
            n <= first.len(),
            forall|k: int| 0 <= k < i ==> has_prefix(#[trigger] sv[k], first@.take(n as int)),
            forall|q: Seq<char>| #[trigger] common_prefix(q, sv) ==> q.len() <= n,
        decreases strs.len() - i, n,
    {
        let s = chars_of(strs[i].as_str());
        assert(s@ == sv[i as int]);
        let pre = slice_chars(&first, 0, n);
        assert(pre@ == first@.take(n as int));
        if starts_with_chars(&s, &pre) {
            i += 1;
        } else {
            if n == 0 {
                assert(s@.take(0) =~= Seq::<char>::empty());
                assert(pre@ =~= Seq::<char>::empty());
                assert(false);
                return String::new();
            }
            proof {
                assert forall|q: Seq<char>| #[trigger] common_prefix(q, sv) implies q.len() <= n - 1 by {
                    assert(has_prefix(sv[0], q));
                    assert(has_prefix(sv[i as int], q));
                    if q.len() == n {
                        assert(q =~= first@.take(n as int));
                        assert(s@.take(n as int) == q);
                    }
                }
                assert forall|k: int| 0 <= k < i implies has_prefix(#[trigger] sv[k], first@.take(n - 1)) by {
                    assert(has_prefix(sv[k], first@.take(n as int)));
                    assert(sv[k].take(n - 1) =~= first@.take(n - 1));
                }
            }
            n -= 1;
        }
    }
    let r = slice_chars(&first, 0, n);
    string_of(&r)
}

/// `l` is the longest common prefix of `strs` (empty for none).
pub open spec fn is_lcp(l: Seq<char>, strs: Seq<Seq<char>>) -> bool {
    &&& strs.len() == 0 ==> l.len() == 0
    &&& strs.len() > 0 ==> common_prefix(l, strs)
    &&& forall|q: Seq<char>| strs.len() > 0 && #[trigger] common_prefix(q, strs) ==> q.len() <= l.len()
}

/// The archive's own files: all but `changes.json` and `.metadata.json`.
pub open spec fn content_names(strs: Seq<Seq<char>>) -> Seq<Seq<char>>
    decreases strs.len(),
{
    if strs.len() == 0 {
        Seq::empty()
    } else {
        let rest = content_names(strs.drop_last());
        if strs.last() == "changes.json"@ || strs.last() == ".metadata.json"@ {
            rest
        } else {
            rest.push(strs.last())
        }
    }
}

/// A common prefix cut back to its last `/`, ending in `/` unless empty.
pub open spec fn dir_prefix(lcp: Seq<char>) -> Seq<char> {
    let b = match last_index(lcp, '/') {
        Some(k) => lcp.take(k),
        None => Seq::empty(),
    };
    if b.len() > 0 && b.last() != '/' {
        b.push('/')
    } else {
        b
    }
}

/// The directory all of an archive's files sit in, as a prefix to strip
/// from their names.
pub fn archive_prefix(names: &Vec<String>) -> (r: String)
    ensures
        exists|l: Seq<char>| is_lcp(l, content_names(views(names@))) && r@ == dir_prefix(l),
{
    let mut files: Vec<String> = Vec::new();
    let mut i: usize = 0;
    while i < names.len()
        invariant
            i <= names.len(),
            views(files@) == content_names(views(names@.take(i as int))),
        decreases names.len() - i,
    {
        assert(views(names@.take(i + 1 as int)).drop_last() =~= views(names@.take(i as int)));
        assert(views(names@.take(i + 1 as int)).last() == names@[i as int]@);
        let n = names[i].as_str();
        if !(chars_eq(&chars_of(n), &chars_of("changes.json")) || chars_eq(&chars_of(n), &chars_of(".metadata.json"))) {
            let ghost before = files@;
            files.push(names[i].clone());
            assert(views(files@) =~= views(before).push(names@[i as int]@));
        }
        i += 1;
    }
    assert(names@.take(names@.len() as int) =~= names@);
    let ghost fv = views(files@);
    assert(fv == content_names(views(names@)));
    let lcp = longest_common_prefix(files);
    assert(is_lcp(lcp@, fv));
    let lc = chars_of(lcp.as_str());
    let cut: Vec<char> = match rfind_char(&lc, '/') {
        Some(k) => slice_chars(&lc, 0, k),
        None => Vec::new(),
    };
    assert(cut@ =~= match last_index(lcp@, '/') {
        Some(k) => lcp@.take(k),
        None => Seq::<char>::empty(),
    });
    let mut out = cut;
    if out.len() > 0 && out[out.len() - 1] != '/' {
        out.push('/');
    }
    assert(out@ == dir_prefix(lcp@));
    assert(is_lcp(lcp@, content_names(views(names@))));
    string_of(&out)
}

/// An entry's name inside the archive's directory: without the prefix
/// when it has it.
pub open spec fn entry_name_spec(name: Seq<char>, prefix: Seq<char>) -> Seq<char> {
    if has_prefix(name, prefix) {
        name.skip(prefix.len() as int)
    } else {
        name
    }
}

/// An entry's name inside the archive's directory.
pub fn entry_name(name: &str, prefix: &str) -> (r: String)
    ensures
        r@ == entry_name_spec(name@, prefix@),
{
    let n = chars_of(name);
    let p = chars_of(prefix);
    if starts_with_chars(&n, &p) {
        let rest = slice_chars(&n, p.len(), n.len());
        assert(rest@ =~= name@.skip(prefix@.len() as int));
        string_of(&rest)
    } else {
        String::from_str(name)
    }
}


/// An archive whose digest or contents do not hold up.
pub const MIRRORC_FAILED: &'static str = "MIRRORC_FAILED";

/// The archive's digest is accepted: none was given, or it equals the
/// computed one up to ASCII case.
pub open spec fn digest_ok_spec(expected: Seq<char>, got: Seq<char>) -> bool {
    expected.len() == 0 || expected.map_values(|c: char| ascii_down(c)) == got.map_values(
        |c: char| ascii_down(c),
    )
}

/// Whether the computed digest `got` matches the `expected` one.
pub fn digest_ok(expected: &str, got: &str) -> (r: bool)
    ensures
        r == digest_ok_spec(expected@, got@),
{
    let e = chars_of(expected);
    if e.len() == 0 {
        return true;
    }
    chars_eq(&ascii_lower(&e), &ascii_lower(&chars_of(got)))
}

/// The archive's own files, which are read and not extracted: the change
/// list and the metadata, at the root or inside the archive's directory.
pub open spec fn is_meta_entry_spec(name: Seq<char>, prefix: Seq<char>) -> bool {
    name == "changes.json"@ || name == ".metadata.json"@ || name == prefix + ".metadata.json"@
}

/// Whether an entry (named within the archive's directory) is one of the
/// archive's own files.
pub fn is_meta_entry(name: &str, prefix: &str) -> (r: bool)
    ensures
        r == is_meta_entry_spec(name@, prefix@),
{
    let n = chars_of(name);
    let mut own = chars_of(prefix);
    let meta = chars_of(".metadata.json");
    let mut i: usize = 0;
    while i < meta.len()
        invariant
            i <= meta@.len(),
            own@ == prefix@ + meta@.take(i as int),
        decreases meta@.len() - i,
    {
        own.push(meta[i]);
        assert(meta@.take(i + 1 as int) =~= meta@.take(i as int).push(meta@[i as int]));
        i += 1;
    }
    assert(meta@.take(meta@.len() as int) =~= meta@);
    chars_eq(&n, &chars_of("changes.json")) || chars_eq(&n, &meta) || chars_eq(&n, &own)
}


/// The paths an archive deletes, as the install directory names them: those
/// of its change list, without the archive's directory, then those of its
/// metadata; with `/` for `\`.
pub open spec fn delete_paths(
    changes: Seq<Seq<char>>,
    meta: Seq<Seq<char>>,
    prefix: Seq<char>,
) -> Seq<Seq<char>> {
    changes.map_values(|d: Seq<char>| slashes(entry_name_spec(d, prefix))) + meta.map_values(
        |d: Seq<char>| slashes(d),
    )
}

pub open spec fn listed(o: Option<Vec<String>>) -> Seq<Seq<char>> {
    match o {
        Some(v) => views(v@),
        None => Seq::empty(),
    }
}

/// The paths an archive deletes (see [`delete_paths`]), each once, in
/// `str`'s order. `changes` is the change list's `deleted` entry and `meta`
/// the metadata's `deletes`, where the archive has them.
pub fn mirrorc_deletes(changes: &Option<Vec<String>>, meta: &Option<Vec<String>>, prefix: &str) -> (r:
    Vec<String>)
    ensures
        strictly_sorted(views(r@)),
        same_texts(views(r@), delete_paths(listed(*changes), listed(*meta), prefix@)),
{
    let mut all: Vec<String> = Vec::new();
    let ghost cs = listed(*changes);
    let ghost ms = listed(*meta);
    match changes {
        Some(v) => {
            let mut i: usize = 0;
            while i < v.len()
                invariant
                    i <= v@.len(),
                    cs == views(v@),
                    views(all@) == cs.take(i as int).map_values(
                        |d: Seq<char>| slashes(entry_name_spec(d, prefix@)),
                    ),
                decreases v@.len() - i,
            {
                let e = entry_name(v[i].as_str(), prefix);
                let ghost before = views(all@);
                assert(cs[i as int] == v@[i as int]@);
                assert(cs.take(i + 1 as int) =~= cs.take(i as int).push(cs[i as int]));
                all.push(forward_slashes(e.as_str()));
                assert(views(all@) =~= before.push(slashes(entry_name_spec(cs[i as int], prefix@))));
                i += 1;
                assert(views(all@) =~= cs.take(i as int).map_values(
                    |d: Seq<char>| slashes(entry_name_spec(d, prefix@)),
                ));
            }
            assert(cs.take(v@.len() as int) =~= cs);
        },
        None => {
            assert(views(all@) =~= cs.map_values(|d: Seq<char>| slashes(entry_name_spec(d, prefix@))));
        },
    }
    let ghost first = views(all@);
    match meta {
        Some(v) => {
            let mut i: usize = 0;
            while i < v.len()
                invariant
                    i <= v@.len(),
                    ms == views(v@),
                    views(all@) == first + ms.take(i as int).map_values(|d: Seq<char>| slashes(d)),
                decreases v@.len() - i,
            {
                let ghost before = views(all@);
                assert(ms[i as int] == v@[i as int]@);
                assert(ms.take(i + 1 as int) =~= ms.take(i as int).push(ms[i as int]));
                all.push(forward_slashes(v[i].as_str()));
                assert(views(all@) =~= before.push(slashes(ms[i as int])));
                i += 1;
                assert(views(all@) =~= first + ms.take(i as int).map_values(|d: Seq<char>| slashes(d)));
            }
            assert(ms.take(v@.len() as int) =~= ms);
        },
        None => {
            assert(views(all@) =~= first + ms.map_values(|d: Seq<char>| slashes(d)));
        },
    }
    assert(views(all@) =~= delete_paths(cs, ms, prefix@));
    sorted_unique(&all)
}


/// An archive's change list.
#[derive(Clone, Debug, PartialEq, Eq)]
pub struct MirrorcChangeset {
    pub added: Option<Vec<String>>,
    pub deleted: Option<Vec<String>>,
    pub modified: Option<Vec<String>>,
}

/// What extracting an archive produced: its metadata text, each extracted
/// file (named within the archive's directory, with `/`) with its md5, and
/// the paths to delete.
#[derive(Clone, Debug, PartialEq, Eq)]
pub struct MirrorcExtract {
    pub metadata: Option<String>,
    pub files: Vec<(String, String)>,
    pub deletes: Vec<String>,
}

/// The change list's `deleted` entry, where there is a change list.
pub open spec fn deleted_of(c: Option<MirrorcChangeset>) -> Option<Vec<String>> {
    match c {
        Some(c) => c.deleted,
        None => None,
    }
}

pub open spec fn file_views(files: Seq<(String, String)>) -> Seq<(Seq<char>, Seq<char>)> {
    files.map_values(|f: (String, String)| (f.0@, f.1@))
}

/// The result of an extraction: the metadata text as read, the extracted
/// files (name within the archive's directory, md5) with `/` for `\` in
/// their names, and the deletes of the change list and of the metadata
/// (see [`mirrorc_deletes`]).
pub fn finish_extract(
    metadata: Option<String>,
    files: Vec<(String, String)>,
    changeset: &Option<MirrorcChangeset>,
    meta_deletes: &Option<Vec<String>>,
    prefix: &str,
) -> (r: MirrorcExtract)
    ensures
        r.metadata == metadata,
        file_views(r.files@) == file_views(files@).map_values(
            |f: (Seq<char>, Seq<char>)| (slashes(f.0), f.1),
        ),
        strictly_sorted(views(r.deletes@)),
        same_texts(
            views(r.deletes@),
            delete_paths(listed(deleted_of(*changeset)), listed(*meta_deletes), prefix@),
        ),
{
    let mut named: Vec<(String, String)> = Vec::new();
    let mut i: usize = 0;
    while i < files.len()
        invariant
            i <= files@.len(),
            file_views(named@) == file_views(files@.take(i as int)).map_values(
                |f: (Seq<char>, Seq<char>)| (slashes(f.0), f.1),
            ),
        decreases files@.len() - i,
    {
        let ghost before = file_views(named@);
        assert(files@.take(i + 1 as int) =~= files@.take(i as int).push(files@[i as int]));
        assert(file_views(files@.take(i + 1 as int)) =~= file_views(files@.take(i as int)).push(
            (files@[i as int].0@, files@[i as int].1@),
        ));
        named.push((forward_slashes(files[i].0.as_str()), files[i].1.clone()));
        assert(file_views(named@) =~= before.push((slashes(files@[i as int].0@), files@[i as int].1@)));
        i += 1;
    }
    assert(files@.take(files@.len() as int) =~= files@);
    let deleted = match changeset {
        Some(c) => &c.deleted,
        None => &None,
    };
    let deletes = mirrorc_deletes(deleted, meta_deletes, prefix);
    MirrorcExtract { metadata, files: named, deletes }
}

} // verus!
