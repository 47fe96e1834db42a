//! Decisions of an install run: names shown for runtimes and files, which
//! downloads are big enough to log, the texts of the usage events a run
//! reports, which release files it installs and which occupied files it
//! asks about, the steps of a Mirrorc update, and what an uninstall
//! removes.

use vstd::prelude::*;
use vstd::string::StringExecFns;
use vstd::utf8::encode_utf8;
use crate::failure::ErrorChain;
use crate::text::{chars_eq, chars_of, forward_slashes, has_prefix, lower, opt_view, lowercase, slashes, slice_chars, starts_with_chars, string_of};
use crate::ui_session::{Coded, SessionResult, SourceItem, MIRRORC_CDK_MISSING};
use crate::mirror::MIRRORC_FAILED;
use crate::sorted::{holds_text, same_texts, sorted_unique, strictly_sorted, views};
use crate::builder::InstallerInfo;

verus! {

/// The name shown for a runtime: .NET runtimes by their product name,
/// others by their tag.
pub open spec fn runtime_name_spec(tag: Seq<char>) -> Seq<char> {
    if has_prefix(tag, "Microsoft.DotNet"@) {
        "Microsoft .NET Runtime"@
    } else {
        tag
    }
}

/// The name shown for a runtime.
pub fn runtime_name(tag: &str) -> (r: &str)
    ensures
        r@ == runtime_name_spec(tag@),
{
    if starts_with_chars(&chars_of(tag), &chars_of("Microsoft.DotNet")) {
        "Microsoft .NET Runtime"
    } else {
        tag
    }
}

pub open spec fn is_sep(c: char) -> bool {
    c == '\\' || c == '/'
}

/// The last place a path separator (`\` or `/`) occurs.
pub open spec fn last_sep(s: Seq<char>) -> Option<int>
    decreases s.len(),
{
    if s.len() == 0 {
        None
    } else if is_sep(s.last()) {
        Some(s.len() - 1)
    } else {
        last_sep(s.drop_last())
    }
}

/// A path's last component: what follows its last separator.
pub open spec fn basename_spec(path: Seq<char>) -> Seq<char> {
    match last_sep(path) {
        Some(k) => path.skip(k + 1),
        None => path,
    }
}

/// A path's last component.
pub fn basename(path: &str) -> (r: String)
    ensures
        r@ == basename_spec(path@),
{
    let cs = chars_of(path);
    let mut n: usize = cs.len();
    assert(cs@.take(n as int) == cs@);
    while n > 0 && !(cs[n - 1] == '\\' || cs[n - 1] == '/')
        invariant
            n <= cs.len(),
            cs@ == path@,
            last_sep(cs@) == last_sep(cs@.take(n as int)),
        decreases n,
    {
        assert(cs@.take(n as int).drop_last() == cs@.take(n - 1 as int));
        n -= 1;
    }
    if n == 0 {
        assert(last_sep(cs@.take(0)) is None);
        String::from_str(path)
    } else {
        assert(cs@.take(n as int).last() == cs@[n - 1 as int]);
        let rest = slice_chars(&cs, n, cs.len());
        assert(rest@ =~= path@.skip(n as int));
        string_of(&rest)
    }
}

/// `s` is in descending order.
pub open spec fn descending(s: Seq<u64>) -> bool {
    forall|i: int, j: int| 0 <= i < j < s.len() ==> s[i] >= s[j]
}

/// Which of the sorted sizes sets the threshold: three tenths of the way
/// down, at least the third and at most the sixth, within the list.
pub open spec fn threshold_index(n: int) -> int {
    let t = if n * 3 / 10 < 2 { 2 } else { n * 3 / 10 };
    let t = if t < 5 { t } else { 5 };
    if t < n - 1 { t } else { n - 1 }
}

fn insert_desc(sorted: &mut Vec<u64>, x: u64)
    requires
        descending(old(sorted)@),
    ensures
        descending(final(sorted)@),
        final(sorted)@.to_multiset() == old(sorted)@.to_multiset().insert(x),
{
    let mut j: usize = 0;
    while j < sorted.len() && sorted[j] >= x
        invariant
            j <= sorted@.len(),
            forall|i: int| 0 <= i < j ==> sorted@[i] >= x,
        decreases sorted@.len() - j,
    {
        j += 1;
    }
    let ghost before = sorted@;
    sorted.insert(j, x);
    proof {
        vstd::seq_lib::to_multiset_insert(before, j as int, x);
        assert forall|a: int, b: int| 0 <= a < b < sorted@.len() implies sorted@[a] >= sorted@[b] by {
            if b < j {
            } else if b == j {
            } else if a < j {
                assert(sorted@[b] == before[b - 1]);
            } else if a == j {
                assert(sorted@[b] == before[b - 1]);
                assert(before[j as int] < x);
            } else {
                assert(sorted@[a] == before[a - 1] && sorted@[b] == before[b - 1]);
            }
        }
    }
}

/// The size a download must reach to be logged one by one: none for three
/// files or fewer; else eight tenths of the size at `threshold_index` of
/// the sizes sorted largest first.
pub fn size_threshold(sizes: &[u64]) -> (r: u64)
    ensures
        sizes@.len() <= 3 ==> r == 0,
        sizes@.len() > 3 ==> exists|p: Seq<u64>|
            p.to_multiset() == sizes@.to_multiset() && descending(p) && r == p[threshold_index(
                sizes@.len() as int,
            )] * 8 / 10,
{
    if sizes.len() <= 3 {
        return 0;
    }
    let mut sorted: Vec<u64> = Vec::new();
    let mut i: usize = 0;
    assert(sorted@ =~= sizes@.take(0));
    while i < sizes.len()
        invariant
            i <= sizes@.len(),
            descending(sorted@),
            sorted@.to_multiset() == sizes@.take(i as int).to_multiset(),
        decreases sizes@.len() - i,
    {
        insert_desc(&mut sorted, sizes[i]);
        proof {
            assert(sizes@.take(i + 1 as int) =~= sizes@.take(i as int).push(sizes@[i as int]));
            vstd::seq_lib::to_multiset_build(sizes@.take(i as int), sizes@[i as int]);
        }
        i += 1;
    }
    assert(sizes@.take(sizes@.len() as int) =~= sizes@);
    proof {
        vstd::seq_lib::to_multiset_len(sorted@);
        vstd::seq_lib::to_multiset_len(sizes@);
    }
    let n = sorted.len();
    let tenth: u128 = n as u128 * 3 / 10;
    let t: u128 = if tenth < 2 { 2 } else { tenth };
    let t: u128 = if t < 5 { t } else { 5 };
    let idx: usize = if t < (n - 1) as u128 { t as usize } else { n - 1 };
    let v: u128 = sorted[idx] as u128 * 8 / 10;
    assert(idx == threshold_index(sizes@.len() as int));
    (v as u64)
}

/// The status a finished run is reported with.
pub fn txn_status(result: &Result<SessionResult, ErrorChain>) -> (r: &'static str)
    ensures
        r@ == match result {
            Ok(s) => if s.cancelled { "cancelled"@ } else { "ok"@ },
            Err(_) => "internal_error"@,
        },
{
    match result {
        Ok(s) => if s.cancelled { "cancelled" } else { "ok" },
        Err(_) => "internal_error",
    }
}

/// The name of the event reported before an install: its action, then
/// where the files come from, then the version.
pub open spec fn prepare_event_spec(
    is_update: bool,
    packed: bool,
    source_id: Seq<char>,
    version: Seq<char>,
    used_online: bool,
) -> Seq<char> {
    let action = if is_update { "update"@ } else { "install"@ };
    if packed {
        if used_online {
            action + "/packed+"@ + source_id + "/"@ + version
        } else {
            action + "/packed/"@ + version
        }
    } else {
        action + "/"@ + source_id + "/"@ + version
    }
}

/// The name of the event reported before an install. `packed` says
/// whether the installer carries an embedded package.
pub fn prepare_event(is_update: bool, packed: bool, source_id: &str, version: &str, used_online: bool) -> (r: String)
    ensures
        r@ == prepare_event_spec(is_update, packed, source_id@, version@, used_online),
{
    let mut s = if is_update {
        String::from_str("update")
    } else {
        String::from_str("install")
    };
    if packed {
        if used_online {
            s.append("/packed+");
            s.append(source_id);
            s.append("/");
        } else {
            s.append("/packed/");
        }
    } else {
        s.append("/");
        s.append(source_id);
        s.append("/");
    }
    s.append(version);
    s
}

/// The flags of a run, as query pieces, in order.
pub open spec fn run_flags(non_interactive: bool, silent: bool, uninstall: bool, online: bool, packed: bool) -> Seq<
    Seq<char>,
> {
    let a = if non_interactive { seq!["non_interactive=1"@] } else { Seq::empty() };
    let b = if silent { seq!["silent=1"@] } else { Seq::empty() };
    let c = if uninstall { seq!["uninstall=1"@] } else { Seq::empty() };
    let d = if online { seq!["online=1"@] } else { Seq::empty() };
    let e = if packed { seq!["pack=1"@] } else { Seq::empty() };
    a + b + c + d + e
}

/// Pieces joined by `&`.
pub open spec fn join_amp(parts: Seq<Seq<char>>) -> Seq<char>
    decreases parts.len(),
{
    if parts.len() == 0 {
        Seq::empty()
    } else if parts.len() == 1 {
        parts[0]
    } else {
        join_amp(parts.drop_last()) + "&"@ + parts.last()
    }
}

fn push_flag(out: &mut String, parts: Ghost<Seq<Seq<char>>>, started: bool, on: bool, text: &str) -> (r: (
    Ghost<Seq<Seq<char>>>,
    bool,
))
    requires
        old(out)@ == join_amp(parts@),
        started == (parts@.len() > 0),
    ensures
        r.0@ == (if on { parts@.push(text@) } else { parts@ }),
        r.1 == (r.0@.len() > 0),
        final(out)@ == join_amp(r.0@),
{
    if on {
        if started {
            out.append("&");
        }
        out.append(text);
        proof {
            assert(parts@.push(text@).drop_last() =~= parts@);
            if parts@.len() == 0 {
                assert(out@ =~= text@);
            }
        }
        (Ghost(parts@.push(text@)), true)
    } else {
        (parts, started)
    }
}

/// The page path usage events are reported under: the app's name, then
/// the run's flags as a query.
pub fn insight_base(
    app_name: &str,
    non_interactive: bool,
    silent: bool,
    uninstall: bool,
    online: bool,
    packed: bool,
) -> (r: String)
    ensures
        r@ == "/"@ + app_name@ + "?"@ + join_amp(run_flags(non_interactive, silent, uninstall, online, packed)),
{
    let mut q = String::new();
    let g = Ghost(Seq::<Seq<char>>::empty());
    assert(q@ == join_amp(g@));
    let (g, started) = push_flag(&mut q, g, false, non_interactive, "non_interactive=1");
    let (g, started) = push_flag(&mut q, g, started, silent, "silent=1");
    let (g, started) = push_flag(&mut q, g, started, uninstall, "uninstall=1");
    let (g, started) = push_flag(&mut q, g, started, online, "online=1");
    let (g, _) = push_flag(&mut q, g, started, packed, "pack=1");
    assert(g@ =~= run_flags(non_interactive, silent, uninstall, online, packed));
    let mut s = String::from_str("/");
    s.append(app_name);
    s.append("?");
    s.append(q.as_str());
    s
}

/// The bytes `encodeURI` leaves as they are.
pub open spec fn uri_keeps(b: u8) -> bool {
    ||| (0x41 <= b && b <= 0x5a)
    ||| (0x61 <= b && b <= 0x7a)
    ||| (0x30 <= b && b <= 0x39)
    ||| b == 0x3b || b == 0x2c || b == 0x2f || b == 0x3f || b == 0x3a || b == 0x40 || b == 0x26
    ||| b == 0x3d || b == 0x2b || b == 0x24 || b == 0x2d || b == 0x5f || b == 0x2e || b == 0x21
    ||| b == 0x7e || b == 0x2a || b == 0x27 || b == 0x28 || b == 0x29 || b == 0x23
}

pub open spec fn upper_hex(n: nat) -> char {
    if n < 10 {
        (('0' as u8) + n) as char
    } else {
        (('A' as u8) + n - 10) as char
    }
}

/// Bytes as `encodeURI` writes them: kept bytes as characters, others as
/// `%XX` in upper-case hex.
pub open spec fn encode_uri_spec(b: Seq<u8>) -> Seq<char>
    decreases b.len(),
{
    if b.len() == 0 {
        Seq::empty()
    } else {
        let x = b.last();
        encode_uri_spec(b.drop_last()) + if uri_keeps(x) {
            seq![x as char]
        } else {
            seq!['%', upper_hex(x as nat / 16), upper_hex(x as nat % 16)]
        }
    }
}

fn upper_hex_exec(n: u8) -> (c: char)
    requires
        n < 16,
    ensures
        c == upper_hex(n as nat),
{
    if n < 10 {
        (48u8 + n) as char
    } else {
        (65u8 + n - 10) as char
    }
}

/// A URL with the characters `encodeURI` escapes escaped.
pub fn encode_uri(s: &str) -> (r: String)
    ensures
        r@ == encode_uri_spec(encode_utf8(s@)),
{
    let b = s.as_bytes();
    let mut out: Vec<char> = Vec::new();
    let mut i: usize = 0;
    while i < b.len()
        invariant
            i <= b@.len(),
            b@ == encode_utf8(s@),
            out@ == encode_uri_spec(b@.take(i as int)),
        decreases b@.len() - i,
    {
        let x = b[i];
        assert(b@.take(i + 1 as int).drop_last() =~= b@.take(i as int));
        assert(b@.take(i + 1 as int).last() == x);
        let keep = (0x41 <= x && x <= 0x5a) || (0x61 <= x && x <= 0x7a) || (0x30 <= x && x <= 0x39) || x == 0x3b
            || x == 0x2c || x == 0x2f || x == 0x3f || x == 0x3a || x == 0x40 || x == 0x26 || x == 0x3d || x == 0x2b
            || x == 0x24 || x == 0x2d || x == 0x5f || x == 0x2e || x == 0x21 || x == 0x7e || x == 0x2a || x == 0x27
            || x == 0x28 || x == 0x29 || x == 0x23;
        if keep {
            out.push(x as char);
        } else {
            out.push('%');
            out.push(upper_hex_exec(x / 16));
            out.push(upper_hex_exec(x % 16));
        }
        i += 1;
    }
    assert(b@.take(b@.len() as int) =~= b@);
    string_of(&out)
}

/// Which metadata an install goes by.
#[derive(Clone, Copy, Debug, PartialEq, Eq, Structural)]
pub enum MetaPick {
    /// Neither could be had: the online failure (or "metadata unreachable").
    Unreachable,
    Online,
    Local,
    /// A newer version is online: ask the user (yes: online, no: local).
    AskVersion,
}

/// Picks between the embedded metadata and the online one, by their tags.
/// `online_newer` says whether the online tag is the later version; an
/// update of an installer without an embedded index takes a newer online
/// version without asking, and so does a run that answers automatically
/// (which otherwise stays local).
pub open spec fn pick_spec(
    local: Option<Seq<char>>,
    online: Option<Seq<char>>,
    online_newer: bool,
    force_online: bool,
    auto_answer: bool,
    is_update: bool,
    no_index: bool,
) -> MetaPick {
    match (local, online) {
        (None, None) => MetaPick::Unreachable,
        (None, Some(_)) => MetaPick::Online,
        (Some(_), None) => MetaPick::Local,
        (Some(l), Some(o)) => if force_online {
            MetaPick::Online
        } else if o != l && online_newer {
            if is_update && no_index {
                MetaPick::Online
            } else if auto_answer {
                MetaPick::Local
            } else {
                MetaPick::AskVersion
            }
        } else {
            MetaPick::Local
        },
    }
}

/// Picks between the embedded metadata and the online one.
pub fn pick_metadata(
    local: Option<&str>,
    online: Option<&str>,
    online_newer: bool,
    force_online: bool,
    auto_answer: bool,
    is_update: bool,
    no_index: bool,
) -> (r: MetaPick)
    ensures
        r == pick_spec(
            match local {
                Some(t) => Some(t@),
                None => None,
            },
            match online {
                Some(t) => Some(t@),
                None => None,
            },
            online_newer,
            force_online,
            auto_answer,
            is_update,
            no_index,
        ),
{
    match (local, online) {
        (None, None) => MetaPick::Unreachable,
        (None, Some(_)) => MetaPick::Online,
        (Some(_), None) => MetaPick::Local,
        (Some(l), Some(o)) => {
            if force_online {
                MetaPick::Online
            } else if !crate::text::chars_eq(&chars_of(o), &chars_of(l)) && online_newer {
                if is_update && no_index {
                    MetaPick::Online
                } else if auto_answer {
                    MetaPick::Local
                } else {
                    MetaPick::AskVersion
                }
            } else {
                MetaPick::Local
            }
        },
    }
}

/// The key a program path is compared by: `/` separators, lowercased.
pub open spec fn path_key(s: Seq<char>) -> Seq<char> {
    lowercase(slashes(s))
}

pub open spec fn running_spec(procs: Seq<(u32, Seq<char>)>, target: Seq<char>) -> Seq<u32>
    decreases procs.len(),
{
    if procs.len() == 0 {
        Seq::empty()
    } else {
        let rest = running_spec(procs.drop_last(), target);
        if path_key(procs.last().1) == path_key(target) {
            rest.push(procs.last().0)
        } else {
            rest
        }
    }
}

pub open spec fn proc_views(v: Seq<(u32, String)>) -> Seq<(u32, Seq<char>)> {
    v.map_values(|p: (u32, String)| (p.0, p.1@))
}

/// The processes (by id) running the program that is about to be
/// replaced: those whose path is the target's, up to separators and case.
pub fn running_pids(procs: &Vec<(u32, String)>, target: &str) -> (r: Vec<u32>)
    ensures
        r@ == running_spec(proc_views(procs@), target@),
{
    let key = chars_of(lower(forward_slashes(target).as_str()).as_str());
    let mut out: Vec<u32> = Vec::new();
    let mut i: usize = 0;
    while i < procs.len()
        invariant
            i <= procs@.len(),
            key@ == path_key(target@),
            out@ == running_spec(proc_views(procs@.take(i as int)), target@),
        decreases procs@.len() - i,
    {
        assert(proc_views(procs@.take(i + 1 as int)).drop_last() =~= proc_views(procs@.take(i as int)));
        assert(proc_views(procs@.take(i + 1 as int)).last() == (procs@[i as int].0, procs@[i as int].1@));
        let k = chars_of(lower(forward_slashes(procs[i].1.as_str()).as_str()).as_str());
        if chars_eq(&k, &key) {
            out.push(procs[i].0);
        }
        i += 1;
    }
    assert(procs@.take(procs@.len() as int) =~= procs@);
    out
}


/// A file of a release as a run reads it: its path, size and hashes, and
/// whether it is the updater.
#[derive(Clone, Debug)]
pub struct FileMeta {
    pub file_name: String,
    pub size: u64,
    pub md5: Option<String>,
    pub xxh: Option<String>,
    pub installer: Option<bool>,
}

/// A file's line in the install plan, as far as a run reads it: whether it
/// is to be installed and whether its current copy could not be written.
#[derive(Clone, Debug)]
pub struct PlanFile {
    pub file_name: String,
    pub install: bool,
    pub unwritable: bool,
}

/// Some file of `hashed` is named `name`.
pub open spec fn lists_name(hashed: Seq<FileMeta>, name: Seq<char>) -> bool {
    exists|i: int| 0 <= i < hashed.len() && #[trigger] hashed[i].file_name@ == name
}

/// An update whose metadata came from the network and names an updater
/// lists the updater among its files, so that it is replaced too.
pub open spec fn needs_updater_entry(
    is_update: bool,
    has_embedded_meta: bool,
    installer: Option<InstallerInfo>,
    hashed: Seq<FileMeta>,
    updater_name: Seq<char>,
) -> bool {
    is_update && installer is Some && !has_embedded_meta && !lists_name(hashed, updater_name)
}

/// The release's files, with the updater added where
/// [`needs_updater_entry`] holds: under its own name, with the size and
/// hashes of the release's updater.
pub fn with_updater(
    hashed: Vec<FileMeta>,
    installer: &Option<InstallerInfo>,
    updater_name: &str,
    is_update: bool,
    has_embedded_meta: bool,
) -> (r: Vec<FileMeta>)
    ensures
        !needs_updater_entry(is_update, has_embedded_meta, *installer, hashed@, updater_name@)
            ==> r@ == hashed@,
        needs_updater_entry(is_update, has_embedded_meta, *installer, hashed@, updater_name@) ==> {
            &&& r@.len() == hashed@.len() + 1
            &&& r@.drop_last() == hashed@
            &&& r@.last().file_name@ == updater_name@
            &&& r@.last().size == installer->Some_0.size
            &&& r@.last().md5 == installer->Some_0.md5
            &&& r@.last().xxh == installer->Some_0.xxh
            &&& r@.last().installer == Some(true)
        },
{
    if !is_update || has_embedded_meta {
        return hashed;
    }
    match installer {
        None => hashed,
        Some(inst) => {
            let name = chars_of(updater_name);
            let mut i: usize = 0;
            while i < hashed.len()
                invariant
                    i <= hashed@.len(),
                    name@ == updater_name@,
                    forall|j: int| 0 <= j < i ==> #[trigger] hashed@[j].file_name@ != updater_name@,
                decreases hashed@.len() - i,
            {
                if chars_eq(&chars_of(hashed[i].file_name.as_str()), &name) {
                    return hashed;
                }
                i += 1;
            }
            let md5 = match &inst.md5 {
                Some(m) => Some(m.clone()),
                None => None,
            };
            let xxh = match &inst.xxh {
                Some(x) => Some(x.clone()),
                None => None,
            };
            let mut out = hashed;
            out.push(FileMeta {
                file_name: string_of(&name),
                size: inst.size,
                md5,
                xxh,
                installer: Some(true),
            });
            assert(out@.drop_last() =~= hashed@);
            out
        },
    }
}

/// The names of the plan's files that are to be installed but could not be
/// written (another program holds them), leaving out the updater.
pub open spec fn occupied_spec(plan: Seq<PlanFile>, updater_name: Seq<char>) -> Seq<Seq<char>>
    decreases plan.len(),
{
    if plan.len() == 0 {
        Seq::empty()
    } else {
        let rest = occupied_spec(plan.drop_last(), updater_name);
        let f = plan.last();
        if f.install && f.unwritable && f.file_name@ != updater_name {
            rest.push(f.file_name@)
        } else {
            rest
        }
    }
}

/// The files to name when asking the user to close the programs that hold
/// them, in plan order.
pub fn occupied_files(plan: &Vec<PlanFile>, updater_name: &str) -> (r: Vec<String>)
    ensures
        r@.map_values(|s: String| s@) == occupied_spec(plan@, updater_name@),
{
    let name = chars_of(updater_name);
    let mut out: Vec<String> = Vec::new();
    let mut i: usize = 0;
    while i < plan.len()
        invariant
            i <= plan@.len(),
            name@ == updater_name@,
            out@.map_values(|s: String| s@) == occupied_spec(plan@.take(i as int), updater_name@),
        decreases plan@.len() - i,
    {
        assert(plan@.take(i + 1 as int).drop_last() =~= plan@.take(i as int));
        let f = &plan[i];
        if f.install && f.unwritable && !chars_eq(&chars_of(f.file_name.as_str()), &name) {
            let ghost before = out@;
            out.push(f.file_name.clone());
            assert(out@.map_values(|s: String| s@) =~= before.map_values(|s: String| s@).push(f.file_name@));
        }
        i += 1;
    }
    assert(plan@.take(plan@.len() as int) =~= plan@);
    out
}

/// The first file of `hashed` named `name`.
pub open spec fn first_named(hashed: Seq<FileMeta>, name: Seq<char>) -> Option<int>
    decreases hashed.len(),
{
    if hashed.len() == 0 {
        None
    } else {
        match first_named(hashed.drop_last(), name) {
            Some(k) => Some(k),
            None => if hashed.last().file_name@ == name {
                Some(hashed.len() - 1)
            } else {
                None
            },
        }
    }
}

/// For each plan file to install, in plan order, the release's first entry
/// of that name; files the release does not list are passed over.
pub open spec fn install_items_spec(plan: Seq<PlanFile>, hashed: Seq<FileMeta>) -> Seq<FileMeta>
    decreases plan.len(),
{
    if plan.len() == 0 {
        Seq::empty()
    } else {
        let rest = install_items_spec(plan.drop_last(), hashed);
        let f = plan.last();
        if f.install {
            match first_named(hashed, f.file_name@) {
                Some(k) => rest.push(hashed[k]),
                None => rest,
            }
        } else {
            rest
        }
    }
}

proof fn lemma_first_named_bounds(hashed: Seq<FileMeta>, name: Seq<char>)
    ensures
        first_named(hashed, name) matches Some(k) ==> 0 <= k < hashed.len()
            && hashed[k].file_name@ == name,
        first_named(hashed, name) is None ==> !lists_name(hashed, name),
    decreases hashed.len(),
{
    if hashed.len() > 0 {
        lemma_first_named_bounds(hashed.drop_last(), name);
        if first_named(hashed, name) is None {
            assert forall|i: int| 0 <= i < hashed.len() implies #[trigger] hashed[i].file_name@
                != name by {
                if i < hashed.len() - 1 {
                    assert(hashed.drop_last()[i] == hashed[i]);
                }
            }
        }
    }
}

fn copy_meta(m: &FileMeta) -> (r: FileMeta)
    ensures
        r == *m,
{
    FileMeta {
        file_name: m.file_name.clone(),
        size: m.size,
        md5: match &m.md5 {
            Some(s) => Some(s.clone()),
            None => None,
        },
        xxh: match &m.xxh {
            Some(s) => Some(s.clone()),
            None => None,
        },
        installer: m.installer,
    }
}

fn find_named(hashed: &Vec<FileMeta>, name: &Vec<char>) -> (r: Option<usize>)
    ensures
        r matches Some(k) ==> first_named(hashed@, name@) == Some(k as int),
        r is None ==> first_named(hashed@, name@) is None,
{
    let mut i: usize = 0;
    while i < hashed.len()
        invariant
            i <= hashed@.len(),
            first_named(hashed@.take(i as int), name@) is None,
        decreases hashed@.len() - i,
    {
        assert(hashed@.take(i + 1 as int).drop_last() =~= hashed@.take(i as int));
        if chars_eq(&chars_of(hashed[i].file_name.as_str()), name) {
            proof {
                lemma_first_named_prefix(hashed@, name@, i as int + 1);
            }
            return Some(i);
        }
        i += 1;
    }
    assert(hashed@.take(hashed@.len() as int) =~= hashed@);
    None
}

/// Looking in a longer list finds what a prefix of it holds first.
proof fn lemma_first_named_prefix(hashed: Seq<FileMeta>, name: Seq<char>, n: int)
    requires
        0 <= n <= hashed.len(),
        first_named(hashed.take(n), name) is Some,
    ensures
        first_named(hashed, name) == first_named(hashed.take(n), name),
    decreases hashed.len() - n,
{
    if n < hashed.len() {
        assert(hashed.take(n + 1).drop_last() =~= hashed.take(n));
        lemma_first_named_prefix(hashed, name, n + 1);
    } else {
        assert(hashed.take(n) =~= hashed);
    }
}

/// The release entries of the files a run is to install.
pub fn install_items(plan: &Vec<PlanFile>, hashed: &Vec<FileMeta>) -> (r: Vec<FileMeta>)
    ensures
        r@ == install_items_spec(plan@, hashed@),
{
    let mut out: Vec<FileMeta> = Vec::new();
    let mut i: usize = 0;
    while i < plan.len()
        invariant
            i <= plan@.len(),
            out@ == install_items_spec(plan@.take(i as int), hashed@),
        decreases plan@.len() - i,
    {
        assert(plan@.take(i + 1 as int).drop_last() =~= plan@.take(i as int));
        if plan[i].install {
            let name = chars_of(plan[i].file_name.as_str());
            match find_named(hashed, &name) {
                Some(k) => {
                    proof {
                        lemma_first_named_bounds(hashed@, name@);
                    }
                    out.push(copy_meta(&hashed[k]));
                },
                None => {},
            }
        }
        i += 1;
    }
    assert(plan@.take(plan@.len() as int) =~= plan@);
    out
}


/// A code with nothing but `code` to it.
pub open spec fn is_bare(c: Coded, code: Seq<char>) -> bool {
    c.code@ == code && c.subject is None && c.detail is None && c.event_id is None
}

/// The CDK a Mirrorc run uses: the one given, when it is not empty.
pub fn mirrorc_cdk(cdk: &Option<String>) -> (r: Result<String, Coded>)
    ensures
        (cdk matches Some(k) && k@.len() > 0) ==> (r matches Ok(v) && v == cdk->Some_0),
        !(cdk matches Some(k) && k@.len() > 0) ==> (r matches Err(c) && is_bare(
            c,
            MIRRORC_CDK_MISSING@,
        )),
{
    match cdk {
        Some(k) => {
            if k.as_str().unicode_len() > 0 {
                Ok(k.clone())
            } else {
                Err(Coded::bare(MIRRORC_CDK_MISSING))
            }
        },
        None => Err(Coded::bare(MIRRORC_CDK_MISSING)),
    }
}

/// The name under which a Mirrorc archive with the digest `sha256` is
/// downloaded into the install directory.
pub open spec fn mirrorc_zip_name(sha256: Seq<char>) -> Seq<char> {
    "KachinaInstaller_Mirrorc_"@ + sha256 + ".zip"@
}

/// What to download for a Mirrorc update: the service's URL and the file
/// name of the archive. The service must give both a URL and a digest.
pub fn mirrorc_archive(url: Option<String>, sha256: Option<String>) -> (r: Result<
    (String, String),
    Coded,
>)
    ensures
        (url is None || sha256 is None) ==> (r matches Err(c) && is_bare(c, MIRRORC_FAILED@)),
        (url is Some && sha256 is Some) ==> (r matches Ok(p) && p.0 == url->Some_0 && p.1@
            == mirrorc_zip_name(sha256->Some_0@)),
{
    match (url, sha256) {
        (Some(u), Some(h)) => {
            let mut name = String::from_str("KachinaInstaller_Mirrorc_");
            name.append(h.as_str());
            name.append(".zip");
            Ok((u, name))
        },
        _ => Err(Coded::bare(MIRRORC_FAILED)),
    }
}


/// The first source of `list` with the URI `uri`.
pub open spec fn first_with_uri(list: Seq<SourceItem>, uri: Seq<char>) -> Option<int>
    decreases list.len(),
{
    if list.len() == 0 {
        None
    } else {
        match first_with_uri(list.drop_last(), uri) {
            Some(k) => Some(k),
            None => if list.last().uri@ == uri {
                Some(list.len() - 1)
            } else {
                None
            },
        }
    }
}

/// The id a usage event gives the source `uri`: `default` for a project
/// with a single source (`sources` is `None`); else the id of the first
/// listed source with that URI, or `unknown`.
pub open spec fn source_id_spec(sources: Option<Seq<SourceItem>>, uri: Seq<char>) -> Seq<char> {
    match sources {
        None => "default"@,
        Some(list) => match first_with_uri(list, uri) {
            Some(k) => list[k].id@,
            None => "unknown"@,
        },
    }
}

/// The id a usage event gives the source `uri`.
pub fn source_id(sources: &Option<Vec<SourceItem>>, uri: &str) -> (r: String)
    ensures
        r@ == source_id_spec(
            match *sources {
                Some(v) => Some(v@),
                None => None,
            },
            uri@,
        ),
{
    match sources {
        None => String::from_str("default"),
        Some(list) => {
            let u = chars_of(uri);
            let mut i: usize = 0;
            while i < list.len()
                invariant
                    i <= list@.len(),
                    u@ == uri@,
                    *sources == Some(*list),
                    first_with_uri(list@.take(i as int), uri@) is None,
                decreases list@.len() - i,
            {
                assert(list@.take(i + 1 as int).drop_last() =~= list@.take(i as int));
                if chars_eq(&chars_of(list[i].uri.as_str()), &u) {
                    proof {
                        lemma_first_with_uri_prefix(list@, uri@, i as int + 1);
                    }
                    return list[i].id.clone();
                }
                i += 1;
            }
            assert(list@.take(list@.len() as int) =~= list@);
            String::from_str("unknown")
        },
    }
}

proof fn lemma_first_with_uri_prefix(list: Seq<SourceItem>, uri: Seq<char>, n: int)
    requires
        0 <= n <= list.len(),
        first_with_uri(list.take(n), uri) is Some,
    ensures
        first_with_uri(list, uri) == first_with_uri(list.take(n), uri),
    decreases list.len() - n,
{
    if n < list.len() {
        assert(list.take(n + 1).drop_last() =~= list.take(n));
        lemma_first_with_uri_prefix(list, uri, n + 1);
    } else {
        assert(list.take(n) =~= list);
    }
}


/// What an uninstall is asked to delete: the release's files and the files
/// it deleted, and the updater.
pub open spec fn uninstall_listed(hashed: Seq<FileMeta>, deletes: Seq<Seq<char>>, updater_name: Seq<char>) -> Seq<Seq<char>> {
    hashed.map_values(|m: FileMeta| m.file_name@) + deletes + seq![updater_name]
}

/// The files an uninstall deletes from the install directory: those of
/// [`uninstall_listed`], each once, in `str`'s order.
pub fn uninstall_files(hashed: &Vec<FileMeta>, deletes: &Vec<String>, updater_name: &str) -> (r: Vec<String>)
    ensures
        strictly_sorted(views(r@)),
        same_texts(views(r@), uninstall_listed(hashed@, views(deletes@), updater_name@)),
{
    let mut all: Vec<String> = Vec::new();
    let mut i: usize = 0;
    while i < hashed.len()
        invariant
            i <= hashed@.len(),
            views(all@) == hashed@.take(i as int).map_values(|m: FileMeta| m.file_name@),
        decreases hashed@.len() - i,
    {
        let ghost before = views(all@);
        assert(hashed@.take(i + 1 as int) =~= hashed@.take(i as int).push(hashed@[i as int]));
        all.push(hashed[i].file_name.clone());
        assert(views(all@) =~= before.push(hashed@[i as int].file_name@));
        i += 1;
        assert(views(all@) =~= hashed@.take(i as int).map_values(|m: FileMeta| m.file_name@));
    }
    assert(hashed@.take(hashed@.len() as int) =~= hashed@);
    let ghost first = views(all@);
    let mut j: usize = 0;
    while j < deletes.len()
        invariant
            j <= deletes@.len(),
            views(all@) == first + views(deletes@).take(j as int),
        decreases deletes@.len() - j,
    {
        let ghost before = views(all@);
        assert(views(deletes@).take(j + 1 as int) =~= views(deletes@).take(j as int).push(deletes@[j as int]@));
        all.push(deletes[j].clone());
        assert(views(all@) =~= before.push(deletes@[j as int]@));
        j += 1;
        assert(views(all@) =~= first + views(deletes@).take(j as int));
    }
    assert(views(deletes@).take(deletes@.len() as int) =~= views(deletes@));
    all.push(String::from_str(updater_name));
    assert(views(all@) =~= uninstall_listed(hashed@, views(deletes@), updater_name@));
    sorted_unique(&all)
}

/// Whatever the release's metadata lists (even nothing), an uninstall
/// deletes the updater.
pub proof fn lemma_uninstall_removes_updater(
    hashed: Seq<FileMeta>,
    deletes: Seq<Seq<char>>,
    updater_name: Seq<char>,
    files: Seq<Seq<char>>,
)
    requires
        same_texts(files, uninstall_listed(hashed, deletes, updater_name)),
    ensures
        holds_text(files, updater_name),
{
    let all = uninstall_listed(hashed, deletes, updater_name);
    assert(all[all.len() - 1] == updater_name);
    assert(holds_text(all, updater_name));
}

/// The other paths an uninstall removes: the project's user data only when
/// the user asked for it, and always the extra paths, the program's
/// start-menu folder and its desktop shortcut. The paths come with their
/// placeholders already expanded.
pub fn uninstall_paths(
    delete_user_data: bool,
    user_data: Vec<String>,
    extra: Vec<String>,
    program_dir: &str,
    desktop_dir: &str,
    app_name: &str,
) -> (r: (Vec<String>, Vec<String>))
    ensures
        r.0@ == (if delete_user_data { user_data@ } else { Seq::<String>::empty() }),
        views(r.1@) == views(extra@).push(program_dir@ + seq!['\\'] + app_name@).push(
            desktop_dir@ + seq!['\\'] + app_name@ + ".lnk"@,
        ),
{
    let data = if delete_user_data { user_data } else { Vec::new() };
    let mut extra = extra;
    let ghost before = views(extra@);
    let mut folder = String::from_str(program_dir);
    folder.push('\\');
    folder.append(app_name);
    let mut link = String::from_str(desktop_dir);
    link.push('\\');
    link.append(app_name);
    link.append(".lnk");
    assert(folder@ =~= program_dir@ + seq!['\\'] + app_name@);
    assert(link@ =~= desktop_dir@ + seq!['\\'] + app_name@ + ".lnk"@);
    extra.push(folder);
    assert(views(extra@) =~= before.push(program_dir@ + seq!['\\'] + app_name@));
    extra.push(link);
    assert(views(extra@) =~= before.push(program_dir@ + seq!['\\'] + app_name@).push(
        desktop_dir@ + seq!['\\'] + app_name@ + ".lnk"@,
    ));
    (data, extra)
}


/// The shortcuts and entries the end of an install creates.
#[derive(Clone, Debug, PartialEq, Eq)]
pub struct FinishPlan {
    /// The desktop shortcut, when there is one to create.
    pub desktop_lnk: Option<String>,
    /// The start-menu shortcut to the program.
    pub program_lnk: Option<String>,
    /// Whether the uninstaller (and its start-menu shortcut) is written.
    pub uninstaller: bool,
    /// The start-menu shortcut to the uninstaller.
    pub uninstall_lnk: Option<String>,
}

pub open spec fn program_lnk_spec(program_dir: Seq<char>, app_name: Seq<char>) -> Seq<char> {
    program_dir + seq!['\\'] + app_name + seq!['\\'] + app_name + ".lnk"@
}

pub open spec fn desktop_lnk_spec(desktop_dir: Seq<char>, app_name: Seq<char>) -> Seq<char> {
    desktop_dir + seq!['\\'] + app_name + ".lnk"@
}

pub open spec fn uninstall_lnk_spec(program_dir: Seq<char>, app_name: Seq<char>) -> Seq<char> {
    program_dir + seq!['\\'] + app_name + "\\卸载"@ + app_name + ".lnk"@
}

/// The end of an install: a fresh install gets the start-menu shortcut, and
/// the desktop one when the user asked for it; the uninstaller and its
/// shortcut are written on a fresh install, and on an update whose path was
/// found in the registry (`install_path_source` starting with `REG`).
pub fn finish_plan(
    create_lnk: bool,
    is_update: bool,
    install_path_source: &str,
    program_dir: &str,
    desktop_dir: &str,
    app_name: &str,
) -> (r: FinishPlan)
    ensures
        opt_view(r.desktop_lnk) == (if create_lnk && !is_update {
            Some(desktop_lnk_spec(desktop_dir@, app_name@))
        } else {
            None
        }),
        opt_view(r.program_lnk) == (if !is_update {
            Some(program_lnk_spec(program_dir@, app_name@))
        } else {
            None
        }),
        r.uninstaller == (!is_update || has_prefix(install_path_source@, "REG"@)),
        opt_view(r.uninstall_lnk) == (if r.uninstaller {
            Some(uninstall_lnk_spec(program_dir@, app_name@))
        } else {
            None
        }),
{
    let mut desktop = String::from_str(desktop_dir);
    desktop.push('\\');
    desktop.append(app_name);
    desktop.append(".lnk");
    let mut program = String::from_str(program_dir);
    program.push('\\');
    program.append(app_name);
    program.push('\\');
    program.append(app_name);
    program.append(".lnk");
    let mut uninstall = String::from_str(program_dir);
    uninstall.push('\\');
    uninstall.append(app_name);
    uninstall.append("\\卸载");
    uninstall.append(app_name);
    uninstall.append(".lnk");
    proof {
        assert(desktop@ =~= desktop_lnk_spec(desktop_dir@, app_name@));
        assert(program@ =~= program_lnk_spec(program_dir@, app_name@));
        assert(uninstall@ =~= uninstall_lnk_spec(program_dir@, app_name@));
    }
    let uninstaller = !is_update || starts_with_chars(&chars_of(install_path_source), &chars_of("REG"));
    FinishPlan {
        desktop_lnk: if create_lnk && !is_update { Some(desktop) } else { None },
        program_lnk: if !is_update { Some(program) } else { None },
        uninstaller,
        uninstall_lnk: if uninstaller { Some(uninstall) } else { None },
    }
}

/// The total size of a release's files, for the registry entry.
pub open spec fn release_size_spec(hashed: Seq<FileMeta>) -> int
    decreases hashed.len(),
{
    if hashed.len() == 0 {
        0
    } else {
        release_size_spec(hashed.drop_last()) + hashed.last().size
    }
}

proof fn lemma_release_size_grows(hashed: Seq<FileMeta>, a: int, b: int)
    requires
        0 <= a <= b <= hashed.len(),
    ensures
        release_size_spec(hashed.take(a)) <= release_size_spec(hashed.take(b)),
    decreases b - a,
{
    if a < b {
        assert(hashed.take(b).drop_last() =~= hashed.take(b - 1));
        lemma_release_size_grows(hashed, a, b - 1);
    }
}

/// The total size of a release's files.
pub fn release_size(hashed: &Vec<FileMeta>) -> (r: u64)
    requires
        release_size_spec(hashed@) <= u64::MAX,
    ensures
        r == release_size_spec(hashed@),
{
    let mut total: u64 = 0;
    let mut i: usize = 0;
    while i < hashed.len()
        invariant
            i <= hashed@.len(),
            total == release_size_spec(hashed@.take(i as int)),
            release_size_spec(hashed@) <= u64::MAX,
        decreases hashed@.len() - i,
    {
        proof {
            assert(hashed@.take(i + 1 as int).drop_last() =~= hashed@.take(i as int));
            assert(hashed@.take(hashed@.len() as int) =~= hashed@);
            lemma_release_size_grows(hashed@, i as int + 1, hashed@.len() as int);
        }
        total = total + hashed[i].size;
        i += 1;
    }
    assert(hashed@.take(hashed@.len() as int) =~= hashed@);
    total
}

} // verus!
