//! Judging an install directory: whether it can be written, whether it
//! already holds the product, and where the product goes inside it.

use vstd::prelude::*;
use crate::text::{chars_of, push_chars, slice_chars, string_of, trim_end_char};
use vstd::string::StringExecFns;

verus! {

/// What writing to a directory needs.
#[derive(Clone, Copy, Debug, PartialEq, Eq, Structural)]
pub enum DirState {
    Unwritable,
    Writable,
    /// Writable, inside the user's private folders.
    Private,
}

/// A directory the user picked, judged.
#[derive(Clone, Debug, PartialEq, Eq)]
pub struct SelectDirRes {
    pub path: String,
    pub state: DirState,
    pub empty: bool,
    pub upgrade: bool,
}

/// What the installer knows about a target directory.
#[derive(Clone, Copy, Debug, PartialEq, Eq, Structural)]
pub struct DirProbe {
    pub exists: bool,
    pub empty: bool,
    /// The project's exe is already there.
    pub upgrade: bool,
    pub writable: bool,
    pub private: bool,
}

impl DirProbe {
    /// Unwritable before all; else private or plainly writable.
    pub fn state(&self) -> (r: DirState)
        ensures
            r == (if !self.writable {
                DirState::Unwritable
            } else if self.private {
                DirState::Private
            } else {
                DirState::Writable
            }),
    {
        if !self.writable {
            DirState::Unwritable
        } else if self.private {
            DirState::Private
        } else {
            DirState::Writable
        }
    }

    /// The probe of a path from what the file system shows: `None` for an
    /// existing file. A directory holding the exe is an upgrade and not
    /// empty; a missing directory is empty.
    pub fn from_facts(
        is_file: bool,
        is_dir: bool,
        exe_present: bool,
        has_entries: bool,
        writable: bool,
        private: bool,
    ) -> (r: Option<DirProbe>)
        ensures
            is_file ==> r is None,
            !is_file ==> r == Some(
                DirProbe {
                    exists: is_dir,
                    empty: !is_dir || (!exe_present && !has_entries),
                    upgrade: is_dir && exe_present,
                    writable,
                    private,
                },
            ),
    {
        if is_file {
            return None;
        }
        let (empty, upgrade) = if is_dir {
            (!exe_present && !has_entries, exe_present)
        } else {
            (true, false)
        };
        Some(DirProbe { exists: is_dir, empty, upgrade, writable, private })
    }
}

/// A drive root such as `C:\` or `D:/`.
pub open spec fn drive_root(path: Seq<char>) -> bool {
    path.len() == 3 && path[1] == ':' && (path[2] == '\\' || path[2] == '/')
}

/// Whether a path is a drive root.
pub fn is_drive_root(path: &str) -> (r: bool)
    ensures
        r == drive_root(path@),
{
    let cs = chars_of(path);
    cs.len() == 3 && cs[1] == ':' && (cs[2] == '\\' || cs[2] == '/')
}

/// A chosen directory that is neither empty nor an upgrade gets the
/// product in a subdirectory: at a drive root always, elsewhere when the
/// user agrees.
pub open spec fn nest_needed(res: SelectDirRes, confirmed: bool) -> bool {
    !res.empty && !res.upgrade && (drive_root(res.path@) || confirmed)
}

/// `s` without trailing `\` and `/`.
pub open spec fn trim_seps(s: Seq<char>) -> Seq<char>
    decreases s.len(),
{
    if s.len() > 0 && (s.last() == '\\' || s.last() == '/') {
        trim_seps(s.drop_last())
    } else {
        s
    }
}

/// Where the product goes for a chosen directory: inside it, in a folder
/// named after the app, when nesting is needed; else the directory itself.
pub open spec fn chosen_path(res: SelectDirRes, app_name: Seq<char>, confirmed: bool) -> Seq<char> {
    if nest_needed(res, confirmed) {
        trim_seps(res.path@) + seq!['\\'] + app_name
    } else {
        res.path@
    }
}

/// Whether the user must be asked before nesting: the directory is not
/// empty, not an upgrade, and not a drive root.
pub fn needs_nest_prompt(res: &SelectDirRes) -> (r: bool)
    ensures
        r == (!res.empty && !res.upgrade && !drive_root(res.path@)),
{
    !res.empty && !res.upgrade && !is_drive_root(res.path.as_str())
}

/// Where the product goes; `confirmed` is the user's answer to the nesting
/// question (ignored where no question is asked).
pub fn apply_path_choice(res: SelectDirRes, app_name: &str, confirmed: bool) -> (r: String)
    ensures
        r@ == chosen_path(res, app_name@, confirmed),
{
    if !res.empty && !res.upgrade && (is_drive_root(res.path.as_str()) || confirmed) {
        let cs = chars_of(res.path.as_str());
        let mut n: usize = cs.len();
        assert(cs@.take(n as int) == cs@);
        while n > 0 && (cs[n - 1] == '\\' || cs[n - 1] == '/')
            invariant
                n <= cs.len(),
                trim_seps(cs@.take(n as int)) == trim_seps(cs@),
            decreases n,
        {
            assert(cs@.take(n as int).drop_last() == cs@.take(n - 1 as int));
            n -= 1;
        }
        assert(cs@.take(n as int) == cs@.subrange(0, n as int));
        let mut out = string_of(&slice_chars(&cs, 0, n));
        out.push('\\');
        out.append(app_name);
        out
    } else {
        res.path
    }
}

/// Where the uninstall registry entry says the product is.
#[derive(Clone, Debug, PartialEq, Eq)]
pub enum RegProbe {
    /// No uninstall entry.
    NoKey,
    /// The entry has no readable `InstallLocation`; the message says why.
    ValueError(String),
    Found {
        location: String,
        /// The program is in `location`.
        has_exe: bool,
        /// `location` joined with the registry name.
        folded_dir: String,
        /// The program is in `folded_dir`.
        folded_has_exe: bool,
    },
}

/// Where an existing install was looked for, in order.
#[derive(Debug, PartialEq, Eq)]
pub struct LocationProbe {
    /// The directory of the running installer.
    pub exe_dir: String,
    pub exe_dir_has_exe: bool,
    /// Its parent and whether the program is there; `None` when it has none.
    pub parent: Option<(String, bool)>,
    pub registry: RegProbe,
    /// The default directory under Program Files, or the message of why
    /// Program Files is unknown.
    pub default_dir: Result<String, String>,
    pub default_has_exe: bool,
}

/// The install directory chosen, whether the program is already there, and
/// where the choice came from.
pub open spec fn location_spec(p: LocationProbe) -> Result<(Seq<char>, bool, Seq<char>), Seq<char>> {
    if p.exe_dir_has_exe {
        Ok((p.exe_dir@, true, "CURRENT_DIR"@))
    } else {
        match p.parent {
            None => Err("Failed to get exe parent dir"@),
            Some((dir, has)) => if has {
                Ok((dir@, true, "PARENT_DIR"@))
            } else {
                match p.registry {
                    RegProbe::ValueError(m) => Err(m@),
                    RegProbe::Found { location, has_exe, folded_dir, folded_has_exe } if has_exe => Ok(
                        (location@, true, "REG"@),
                    ),
                    RegProbe::Found { location, has_exe, folded_dir, folded_has_exe } if folded_has_exe => Ok(
                        (folded_dir@, true, "REG_FOLDED"@),
                    ),
                    _ => match p.default_dir {
                        Err(m) => Err("Failed to get ProgramFiles: "@ + m@),
                        Ok(d) => Ok((d@, p.default_has_exe, "DEFAULT"@)),
                    },
                }
            },
        }
    }
}

/// Finds where the product is installed: beside the installer, one level
/// up, where the uninstall entry points (or its folded subdirectory), else
/// the default under Program Files.
pub fn choose_location(p: &LocationProbe) -> (r: Result<(String, bool, &'static str), String>)
    ensures
        match (r, location_spec(*p)) {
            (Ok((d, e, src)), Ok((d2, e2, src2))) => d@ == d2 && e == e2 && src@ == src2,
            (Err(m), Err(n)) => m@ == n,
            _ => false,
        },
{
    if p.exe_dir_has_exe {
        return Ok((p.exe_dir.clone(), true, "CURRENT_DIR"));
    }
    match &p.parent {
        None => Err(String::from_str("Failed to get exe parent dir")),
        Some((dir, has)) => {
            if *has {
                return Ok((dir.clone(), true, "PARENT_DIR"));
            }
            match &p.registry {
                RegProbe::ValueError(m) => {
                    return Err(m.clone());
                },
                RegProbe::Found { location, has_exe, folded_dir, folded_has_exe } => {
                    if *has_exe {
                        return Ok((location.clone(), true, "REG"));
                    }
                    if *folded_has_exe {
                        return Ok((folded_dir.clone(), true, "REG_FOLDED"));
                    }
                },
                RegProbe::NoKey => {},
            }
            match &p.default_dir {
                Err(m) => {
                    let mut s = String::from_str("Failed to get ProgramFiles: ");
                    s.append(m.as_str());
                    Err(s)
                },
                Ok(d) => Ok((d.clone(), p.default_has_exe, "DEFAULT")),
            }
        },
    }
}

/// What a UAC strategy asks for a directory: `force` always elevates,
/// `prefer-user` only where the user cannot write, `prefer-admin` except in
/// the user's own folders. Other strategies are not defined (`None`).
pub open spec fn elevate_spec(state: DirState, strategy: Seq<char>) -> Option<bool> {
    if strategy == "force"@ {
        Some(true)
    } else if strategy == "prefer-user"@ {
        Some(state == DirState::Unwritable)
    } else if strategy == "prefer-admin"@ {
        Some(state != DirState::Private)
    } else {
        None
    }
}

/// Whether installing into a directory in `state` runs elevated under a
/// project's UAC strategy; `None` for a strategy that is not defined.
pub fn elevate_from_state(state: DirState, strategy: &str) -> (r: Option<bool>)
    ensures
        r == elevate_spec(state, strategy@),
{
    let s = chars_of(strategy);
    if crate::text::chars_eq(&s, &chars_of("force")) {
        Some(true)
    } else if crate::text::chars_eq(&s, &chars_of("prefer-user")) {
        Some(state == DirState::Unwritable)
    } else if crate::text::chars_eq(&s, &chars_of("prefer-admin")) {
        Some(state != DirState::Private)
    } else {
        None
    }
}

/// `prefer-user` asks for elevation no more often than `prefer-admin`, and
/// `force` always does.
pub proof fn lemma_strategies_ordered(state: DirState)
    ensures
        elevate_spec(state, "prefer-user"@) == Some(true) ==> elevate_spec(state, "prefer-admin"@) == Some(true),
        elevate_spec(state, "force"@) == Some(true),
{
    reveal_strlit("force");
    reveal_strlit("prefer-user");
    reveal_strlit("prefer-admin");
    assert("prefer-user"@ != "force"@) by {
        assert("prefer-user"@.len() != "force"@.len());
    }
    assert("prefer-admin"@ != "force"@) by {
        assert("prefer-admin"@.len() != "force"@.len());
    }
    assert("prefer-admin"@ != "prefer-user"@) by {
        assert("prefer-admin"@[7] != "prefer-user"@[7]);
    }
}

} // verus!
