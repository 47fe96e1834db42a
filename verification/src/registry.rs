//! The uninstall entry in the Windows registry: which hive it goes to,
//! what it holds, and which entry's metadata an uninstall reads. The
//! registry calls are the host's.

use vstd::prelude::*;
use vstd::string::StringExecFns;
use crate::text::{ascii_down, ascii_lower, chars_eq, chars_of, trim_end_char};

verus! {

/// What the uninstall entry records.
#[derive(Clone, Debug, PartialEq, Eq)]
pub struct WriteRegistryParams {
    pub reg_name: String,
    pub name: String,
    pub version: String,
    pub exe: String,
    pub source: String,
    pub uninstaller: String,
    pub metadata: String,
    pub size: u64,
    pub publisher: String,
}

/// A shortcut to create.
#[derive(Clone, Debug, PartialEq, Eq)]
pub struct CreateLnkArgs {
    pub target: String,
    pub lnk: String,
}

/// A registry hive.
#[derive(Clone, Copy, Debug, PartialEq, Eq, Structural)]
pub enum Hive {
    LocalMachine,
    CurrentUser,
}

/// A registry value.
#[derive(Clone, Debug, PartialEq, Eq)]
pub enum RegValue {
    Text(String),
    Number(u32),
}

/// Where the entry goes: where it already is (the machine's hive first),
/// else the machine's hive when elevated, else the user's. Updating in
/// place never leaves a stale entry in the other hive.
pub fn pick_hive(in_machine: bool, in_user: bool, elevated: bool) -> (r: Hive)
    ensures
        r == (if in_machine {
            Hive::LocalMachine
        } else if in_user {
            Hive::CurrentUser
        } else if elevated {
            Hive::LocalMachine
        } else {
            Hive::CurrentUser
        }),
{
    if in_machine {
        Hive::LocalMachine
    } else if in_user {
        Hive::CurrentUser
    } else if elevated {
        Hive::LocalMachine
    } else {
        Hive::CurrentUser
    }
}

/// The entry's key under a hive.
pub fn uninstall_key(reg_name: &str) -> (r: String)
    ensures
        r@ == "SOFTWARE\\Microsoft\\Windows\\CurrentVersion\\Uninstall\\"@ + reg_name@,
{
    let mut s = String::from_str("SOFTWARE\\Microsoft\\Windows\\CurrentVersion\\Uninstall\\");
    s.append(reg_name);
    s
}

pub enum RegValueView {
    Text(Seq<char>),
    Number(u32),
}

pub open spec fn value_view(v: RegValue) -> RegValueView {
    match v {
        RegValue::Text(s) => RegValueView::Text(s@),
        RegValue::Number(n) => RegValueView::Number(n),
    }
}

pub open spec fn values_view(v: Seq<(String, RegValue)>) -> Seq<(Seq<char>, RegValueView)> {
    v.map_values(|p: (String, RegValue)| (p.0@, value_view(p.1)))
}

/// The values the entry holds, in the order they are written. The size is
/// taken modulo 2^32 before it is given in KiB.
pub open spec fn values_spec(p: WriteRegistryParams) -> Seq<(Seq<char>, RegValueView)> {
    seq![
        ("DisplayName"@, RegValueView::Text(p.name@)),
        ("DisplayVersion"@, RegValueView::Text(p.version@)),
        ("UninstallString"@, RegValueView::Text(p.uninstaller@)),
        ("InstallLocation"@, RegValueView::Text(p.source@)),
        ("DisplayIcon"@, RegValueView::Text(p.exe@)),
        ("Publisher"@, RegValueView::Text(p.publisher@)),
        ("EstimatedSize"@, RegValueView::Number(((p.size % 4294967296) / 1024) as u32)),
        ("NoModify"@, RegValueView::Number(1)),
        ("NoRepair"@, RegValueView::Number(1)),
        ("InstallerMeta"@, RegValueView::Text(p.metadata@)),
    ]
}

/// The values the entry holds.
pub fn registry_values(p: &WriteRegistryParams) -> (r: Vec<(String, RegValue)>)
    ensures
        values_view(r@) == values_spec(*p),
{
    let mut v: Vec<(String, RegValue)> = Vec::new();
    v.push((String::from_str("DisplayName"), RegValue::Text(p.name.clone())));
    v.push((String::from_str("DisplayVersion"), RegValue::Text(p.version.clone())));
    v.push((String::from_str("UninstallString"), RegValue::Text(p.uninstaller.clone())));
    v.push((String::from_str("InstallLocation"), RegValue::Text(p.source.clone())));
    v.push((String::from_str("DisplayIcon"), RegValue::Text(p.exe.clone())));
    v.push((String::from_str("Publisher"), RegValue::Text(p.publisher.clone())));
    let low: u64 = p.size % 4294967296;
    v.push((String::from_str("EstimatedSize"), RegValue::Number((low / 1024) as u32)));
    v.push((String::from_str("NoModify"), RegValue::Number(1)));
    v.push((String::from_str("NoRepair"), RegValue::Number(1)));
    v.push((String::from_str("InstallerMeta"), RegValue::Text(p.metadata.clone())));
    assert(values_view(v@) =~= values_spec(*p));
    v
}

/// What one hive's uninstall entry offers: its metadata (already known to
/// parse) and its install location.
#[derive(Clone, Debug, PartialEq, Eq)]
pub struct HiveMeta {
    pub metadata: String,
    pub location: String,
}

/// A path without trailing `\` and `/`.
pub open spec fn trim_seps(s: Seq<char>) -> Seq<char>
    decreases s.len(),
{
    if s.len() > 0 && (s.last() == '\\' || s.last() == '/') {
        trim_seps(s.drop_last())
    } else {
        s
    }
}

/// Two paths name the same directory: equal up to ASCII case, once
/// trailing separators are gone.
pub open spec fn same_dir(a: Seq<char>, b: Seq<char>) -> bool {
    trim_seps(a).map_values(|c: char| ascii_down(c)) == trim_seps(b).map_values(|c: char| ascii_down(c))
}

/// The entry an uninstall reads: the first (machine before user) whose
/// location is the directory asked for, else the first there is.
pub open spec fn meta_choice(entries: Seq<Option<HiveMeta>>, want: Option<Seq<char>>) -> Option<int> {
    match want {
        Some(w) => match first_matching(entries, w, 0) {
            Some(i) => Some(i),
            None => first_present(entries, 0),
        },
        None => first_present(entries, 0),
    }
}

pub open spec fn first_present(entries: Seq<Option<HiveMeta>>, i: int) -> Option<int>
    decreases entries.len() - i,
{
    if i < 0 || i >= entries.len() {
        None
    } else if entries[i] is Some {
        Some(i)
    } else {
        first_present(entries, i + 1)
    }
}

pub open spec fn matches_want(e: Option<HiveMeta>, w: Seq<char>) -> bool {
    e matches Some(m) && m.location@.len() > 0 && same_dir(m.location@, w)
}

pub open spec fn first_matching(entries: Seq<Option<HiveMeta>>, w: Seq<char>, i: int) -> Option<int>
    decreases entries.len() - i,
{
    if i < 0 || i >= entries.len() {
        None
    } else if matches_want(entries[i], w) {
        Some(i)
    } else {
        first_matching(entries, w, i + 1)
    }
}

fn trim_seps_exec(s: &[char]) -> (r: Vec<char>)
    ensures
        r@ == trim_seps(s@),
{
    let mut n: usize = s.len();
    assert(s@.take(n as int) == s@);
    while n > 0 && (s[n - 1] == '\\' || s[n - 1] == '/')
        invariant
            n <= s.len(),
            trim_seps(s@.take(n as int)) == trim_seps(s@),
        decreases n,
    {
        assert(s@.take(n as int).drop_last() == s@.take(n - 1 as int));
        n -= 1;
    }
    let mut r: Vec<char> = Vec::new();
    let mut i: usize = 0;
    while i < n
        invariant
            i <= n <= s.len(),
            r@ == s@.take(i as int),
        decreases n - i,
    {
        r.push(s[i]);
        i += 1;
        assert(r@ =~= s@.take(i as int));
    }
    r
}

fn same_dir_exec(a: &str, b: &str) -> (r: bool)
    ensures
        r == same_dir(a@, b@),
{
    let x = ascii_lower(&trim_seps_exec(&chars_of(a)));
    let y = ascii_lower(&trim_seps_exec(&chars_of(b)));
    chars_eq(&x, &y)
}

fn find_present(entries: &Vec<Option<HiveMeta>>) -> (r: Option<usize>)
    ensures
        match r {
            Some(i) => first_present(entries@, 0) == Some(i as int),
            None => first_present(entries@, 0) is None,
        },
{
    let mut i: usize = 0;
    while i < entries.len()
        invariant
            i <= entries@.len(),
            first_present(entries@, 0) == first_present(entries@, i as int),
        decreases entries@.len() - i,
    {
        if entries[i].is_some() {
            return Some(i);
        }
        i += 1;
    }
    None
}

fn find_matching(entries: &Vec<Option<HiveMeta>>, want: &str) -> (r: Option<usize>)
    ensures
        match r {
            Some(i) => first_matching(entries@, want@, 0) == Some(i as int),
            None => first_matching(entries@, want@, 0) is None,
        },
{
    let mut i: usize = 0;
    while i < entries.len()
        invariant
            i <= entries@.len(),
            first_matching(entries@, want@, 0) == first_matching(entries@, want@, i as int),
        decreases entries@.len() - i,
    {
        if let Some(m) = &entries[i] {
            if chars_of(m.location.as_str()).len() > 0 && same_dir_exec(m.location.as_str(), want) {
                return Some(i);
            }
        }
        i += 1;
    }
    None
}

/// Which entry's metadata an uninstall reads (an index into `entries`, the
/// hives in order); `None` when no hive has one.
pub fn choose_meta(entries: &Vec<Option<HiveMeta>>, want: Option<&str>) -> (r: Option<usize>)
    ensures
        match r {
            Some(i) => meta_choice(entries@, match want {
                Some(w) => Some(w@),
                None => None,
            }) == Some(i as int),
            None => meta_choice(entries@, match want {
                Some(w) => Some(w@),
                None => None,
            }) is None,
        },
{
    if let Some(w) = want {
        if let Some(i) = find_matching(entries, w) {
            return Some(i);
        }
    }
    find_present(entries)
}


/// The entry's `InstallLocation` is the install directory and its
/// `DisplayIcon` the program: every value written under those names holds
/// `source` and `exe` respectively, and the entry has both.
pub proof fn lemma_location_is_install_dir(p: WriteRegistryParams)
    ensures
        exists|i: int| 0 <= i < values_spec(p).len() && #[trigger] values_spec(p)[i].0 == "InstallLocation"@,
        forall|i: int| 0 <= i < values_spec(p).len() && #[trigger] values_spec(p)[i].0 == "InstallLocation"@
            ==> values_spec(p)[i].1 == RegValueView::Text(p.source@),
        forall|i: int| 0 <= i < values_spec(p).len() && #[trigger] values_spec(p)[i].0 == "DisplayIcon"@
            ==> values_spec(p)[i].1 == RegValueView::Text(p.exe@),
{
    reveal_strlit("DisplayName");
    reveal_strlit("DisplayVersion");
    reveal_strlit("UninstallString");
    reveal_strlit("InstallLocation");
    reveal_strlit("DisplayIcon");
    reveal_strlit("Publisher");
    reveal_strlit("EstimatedSize");
    reveal_strlit("NoModify");
    reveal_strlit("NoRepair");
    reveal_strlit("InstallerMeta");
    let v = values_spec(p);
    assert(v[3].0 == "InstallLocation"@);
    assert forall|i: int| 0 <= i < v.len() && #[trigger] v[i].0 == "InstallLocation"@ implies v[i].1
        == RegValueView::Text(p.source@) by {
        if i != 3 {
            assert(v[i].0[0] != "InstallLocation"@[0] || v[i].0.len() != "InstallLocation"@.len() || v[i].0[1]
                != "InstallLocation"@[1]);
        }
    }
    assert forall|i: int| 0 <= i < v.len() && #[trigger] v[i].0 == "DisplayIcon"@ implies v[i].1
        == RegValueView::Text(p.exe@) by {
        if i != 4 {
            assert(v[i].0.len() != "DisplayIcon"@.len() || v[i].0[7] != "DisplayIcon"@[7]);
        }
    }
}

} // verus!
