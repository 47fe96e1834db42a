//! The decisions of the file swap that the journal describes: how far each
//! unit got, what recovery does about it, and which directory units must be
//! committed file by file. The renames themselves are the caller's.

use vstd::prelude::*;
use crate::journal::{EntryView, FileEntry, Journal, Unit, UnitView, entries_view, units_view};
use crate::text::{lower, lowercase, opt_view, chars_eq, chars_of};

verus! {

/// What a commit hands over: where the staged files are, where they go, and
/// the plan.
pub struct CommitArgs {
    pub staging_root: String,
    pub install_dir: String,
    pub journal: Journal,
}

/// How a commit ended.
#[derive(Clone, Copy, Debug, PartialEq, Eq, Structural)]
pub struct CommitOutcome {
    /// The running executable was among the swapped targets; the staging
    /// directory still holds it and must outlive the process.
    pub self_replaced: bool,
}

/// How a recovery ended.
#[derive(Clone, Copy, Debug, PartialEq, Eq, Structural)]
pub enum RecoverOutcome {
    /// Every pending unit was swapped; same follow-up as a fresh commit.
    Completed { self_replaced: bool },
    /// The directory no longer matched the journal; nothing was renamed and
    /// the staging directory is gone.
    Discarded,
}

/// How far a unit got, judged from what the target holds now.
#[derive(Clone, Copy, Debug, PartialEq, Eq, Structural)]
pub enum Status {
    /// The target holds the new content.
    Done,
    /// The target holds the old content and the replacement is staged.
    Pending,
    /// The target still holds the old content but the staged replacement is
    /// gone: the swap cannot be finished, only undone.
    Unrecoverable,
    /// The target holds something the journal does not know.
    Changed,
}

pub open spec fn file_status(f: EntryView, current: Option<Seq<char>>, staged: bool) -> Status {
    if current == Some(f.new) {
        Status::Done
    } else if current == f.old {
        if staged {
            Status::Pending
        } else {
            Status::Unrecoverable
        }
    } else {
        Status::Changed
    }
}

pub open spec fn del_status(old: Option<Seq<char>>, current: Option<Seq<char>>) -> Status {
    if current is None {
        Status::Done
    } else if current == old {
        Status::Pending
    } else {
        Status::Changed
    }
}

fn opt_eq(a: &Option<String>, b: &Option<String>) -> (r: bool)
    ensures
        r == (opt_view(*a) == opt_view(*b)),
{
    match (a, b) {
        (Some(x), Some(y)) => *x == *y,
        (None, None) => true,
        _ => false,
    }
}

/// How far a file (or copy) unit got. `current` is the hash of what the
/// target holds (`None` when it is not a file), `staged` whether the
/// replacement is still staged.
pub fn classify_file(f: &FileEntry, current: &Option<String>, staged: bool) -> (r: Status)
    ensures
        r == file_status(f@, opt_view(*current), staged),
{
    let done = match current {
        Some(h) => *h == f.new,
        None => false,
    };
    if done {
        Status::Done
    } else if opt_eq(current, &f.old) {
        if staged {
            Status::Pending
        } else {
            Status::Unrecoverable
        }
    } else {
        Status::Changed
    }
}

/// How far a delete unit got: done once the target is gone, pending while
/// it still holds the old content.
pub fn classify_del(old: &Option<String>, current: &Option<String>) -> (r: Status)
    ensures
        r == del_status(opt_view(*old), opt_view(*current)),
{
    if current.is_none() {
        Status::Done
    } else if opt_eq(current, old) {
        Status::Pending
    } else {
        Status::Changed
    }
}

/// What recovery does with an interrupted swap.
#[derive(Clone, Copy, Debug, PartialEq, Eq, Structural)]
pub enum RecoverStep {
    /// Some target changed since the journal was written: drop the staging
    /// directory and touch nothing.
    Discard,
    /// A replacement was lost: undo the units already done, then drop the
    /// staging directory.
    Undo,
    /// Finish the pending units; the done ones stay.
    Forward,
}

pub open spec fn recover_step_spec(statuses: Seq<Status>) -> RecoverStep {
    if exists|i: int| 0 <= i < statuses.len() && statuses[i] == Status::Changed {
        RecoverStep::Discard
    } else if exists|i: int| 0 <= i < statuses.len() && statuses[i] == Status::Unrecoverable {
        RecoverStep::Undo
    } else {
        RecoverStep::Forward
    }
}

/// What recovery does, given how far each unit got.
pub fn recover_step(statuses: &Vec<Status>) -> (r: RecoverStep)
    ensures
        r == recover_step_spec(statuses@),
        r == RecoverStep::Forward ==> forall|i: int|
            0 <= i < statuses@.len() ==> (#[trigger] statuses@[i] == Status::Done || statuses@[i]
                == Status::Pending),
{
    let mut i: usize = 0;
    while i < statuses.len()
        invariant
            i <= statuses.len(),
            forall|k: int| 0 <= k < i ==> statuses@[k] != Status::Changed,
        decreases statuses.len() - i,
    {
        if statuses[i] == Status::Changed {
            return RecoverStep::Discard;
        }
        i += 1;
    }
    let mut i: usize = 0;
    while i < statuses.len()
        invariant
            i <= statuses.len(),
            forall|k: int| 0 <= k < statuses.len() ==> statuses@[k] != Status::Changed,
            forall|k: int| 0 <= k < i ==> statuses@[k] != Status::Unrecoverable,
        decreases statuses.len() - i,
    {
        if statuses[i] == Status::Unrecoverable {
            return RecoverStep::Undo;
        }
        i += 1;
    }
    RecoverStep::Forward
}

/// The units with each directory unit that is no longer clean replaced by
/// one file unit per file, in order.
pub open spec fn degrade_spec(units: Seq<UnitView>, clean: Seq<bool>) -> Seq<UnitView>
    decreases units.len(),
{
    if units.len() == 0 {
        Seq::empty()
    } else {
        let init = degrade_spec(units.drop_last(), clean);
        let u = units.last();
        match u {
            UnitView::Dir { files, .. } => if clean[units.len() - 1] {
                init.push(u)
            } else {
                init + files.map_values(|f: EntryView| UnitView::File(f))
            },
            _ => init.push(u),
        }
    }
}

/// Re-checks directory units right before the swap: a directory that holds
/// something the unit does not know (`clean[i]` false for unit `i`) is
/// committed file by file instead.
pub fn degrade_dirty_dirs(units: Vec<Unit>, clean: &Vec<bool>) -> (r: Vec<Unit>)
    requires
        clean.len() == units.len(),
    ensures
        units_view(r@) == degrade_spec(units_view(units@), clean@),
{
    let ghost uv = units_view(units@);
    let ghost all = units@;
    let mut out: Vec<Unit> = Vec::new();
    let mut i: usize = 0;
    let mut units = units;
    assert(units_view(out@) =~= degrade_spec(uv.take(0), clean@));
    while units.len() > 0
        invariant
            i + units.len() == all.len(),
            clean.len() == all.len(),
            uv == units_view(all),
            units@ == all.skip(i as int),
            units_view(out@) == degrade_spec(uv.take(i as int), clean@),
        decreases units.len(),
    {
        let u = units.remove(0);
        let ghost t = uv.take(i as int + 1);
        assert(u == all[i as int]);
        assert(all.skip(i as int).remove(0) == all.skip(i as int + 1));
        assert(t.drop_last() == uv.take(i as int));
        assert(t.last() == u@);
        match u {
            Unit::Dir { rel, files } => {
                if clean[i] {
                    let d = Unit::Dir { rel, files };
                    proof {
                        assert(units_view(out@.push(d)) =~= units_view(out@).push(d@));
                    }
                    out.push(d);
                } else {
                    let ghost fv = entries_view(files@);
                    let ghost fall = files@;
                    let ghost before = units_view(out@);
                    let mut k: usize = 0;
                    let mut files = files;
                    assert(fall.len() == files.len());
                    assert(fv.take(0).map_values(|f: EntryView| UnitView::File(f)) =~= Seq::<UnitView>::empty());
                    assert(before + Seq::<UnitView>::empty() == before);
                    while files.len() > 0
                        invariant
                            k + files.len() == fall.len(),
                            fall.len() <= usize::MAX,
                            fv == entries_view(fall),
                            files@ == fall.skip(k as int),
                            units_view(out@) == before + fv.take(k as int).map_values(
                                |f: EntryView| UnitView::File(f),
                            ),
                        decreases files.len(),
                    {
                        let f = files.remove(0);
                        assert(f == fall[k as int]);
                        assert(fall.skip(k as int).remove(0) == fall.skip(k as int + 1));
                        let nu = Unit::File(f);
                        proof {
                            assert(units_view(out@.push(nu)) =~= units_view(out@).push(nu@));
                            assert(fv.take(k as int + 1).map_values(|f: EntryView| UnitView::File(f))
                                =~= fv.take(k as int).map_values(|f: EntryView| UnitView::File(f)).push(
                                UnitView::File(f@),
                            ));
                        }
                        out.push(nu);
                        k += 1;
                    }
                    assert(fv.take(k as int) == fv);
                }
            },
            other => {
                proof {
                    assert(units_view(out@.push(other)) =~= units_view(out@).push(other@));
                }
                out.push(other);
            },
        }
        i += 1;
    }
    assert(uv.take(i as int) == uv);
    out
}

/// A directory's listing (paths under it, `/`-separated) holds nothing the
/// unit does not know: each listed path is, up to case, one of the unit's.
pub open spec fn listing_clean_spec(listing: Seq<Seq<char>>, files: Seq<EntryView>) -> bool {
    forall|i: int| 0 <= i < listing.len() ==> #[trigger] has_rel(files, lowercase(listing[i]))
}

/// Some file's path is `x` once lowercased.
pub open spec fn has_rel(files: Seq<EntryView>, x: Seq<char>) -> bool {
    exists|j: int| 0 <= j < files.len() && lowercase(#[trigger] files[j].rel) == x
}

pub open spec fn text_views(v: Seq<String>) -> Seq<Seq<char>> {
    v.map_values(|s: String| s@)
}

/// Whether a directory unit is still clean, from the directory's listing
/// (`None` when it holds a link or junction, which is never clean; a
/// missing directory lists nothing).
pub fn listing_is_clean(listing: &Option<Vec<String>>, files: &Vec<FileEntry>) -> (r: bool)
    ensures
        r == match listing {
            Some(l) => listing_clean_spec(text_views(l@), entries_view(files@)),
            None => false,
        },
{
    let l = match listing {
        Some(l) => l,
        None => {
            return false;
        },
    };
    let mut want: Vec<Vec<char>> = Vec::new();
    let mut j: usize = 0;
    while j < files.len()
        invariant
            j <= files@.len(),
            want@.len() == j,
            forall|k: int| 0 <= k < j ==> #[trigger] want@[k]@ == lowercase(entries_view(files@)[k].rel),
        decreases files@.len() - j,
    {
        let w = lower(files[j].rel.as_str());
        assert(entries_view(files@)[j as int].rel == files@[j as int].rel@);
        want.push(chars_of(w.as_str()));
        j += 1;
    }
    let ghost lv = text_views(l@);
    let ghost fv = entries_view(files@);
    let mut i: usize = 0;
    while i < l.len()
        invariant
            i <= l@.len(),
            *listing == Some(*l),
            lv == text_views(l@),
            fv == entries_view(files@),
            want@.len() == fv.len(),
            forall|k: int| 0 <= k < want@.len() ==> #[trigger] want@[k]@ == lowercase(fv[k].rel),
            forall|a: int| 0 <= a < i ==> #[trigger] has_rel(fv, lowercase(lv[a])),
        decreases l@.len() - i,
    {
        let x = chars_of(lower(l[i].as_str()).as_str());
        assert(lv[i as int] == l@[i as int]@);
        let mut k: usize = 0;
        let mut found = false;
        while k < want.len() && !found
            invariant
                k <= want@.len(),
                want@.len() == fv.len(),
                forall|t: int| 0 <= t < want@.len() ==> #[trigger] want@[t]@ == lowercase(fv[t].rel),
                x@ == lowercase(lv[i as int]),
                found ==> has_rel(fv, x@),
                !found ==> forall|t: int| 0 <= t < k ==> want@[t]@ != x@,
            decreases want@.len() - k, if found { 0int } else { 1int },
        {
            if chars_eq(&want[k], &x) {
                found = true;
                assert(lowercase(fv[k as int].rel) == x@);
            } else {
                k += 1;
            }
        }
        if !found {
            proof {
                assert forall|b: int| 0 <= b < fv.len() implies lowercase(#[trigger] fv[b].rel) != lowercase(lv[i as int]) by {
                    assert(want@[b]@ == lowercase(fv[b].rel));
                }
                assert(!has_rel(fv, lowercase(lv[i as int])));
                assert(!listing_clean_spec(lv, fv));
            }
            return false;
        }
        i += 1;
    }
    assert(listing_clean_spec(lv, fv));
    true
}


/// A file unit whose target holds neither the new content nor anything
/// unknown, but still the journal's old content, can be finished exactly
/// while its replacement is staged: it is pending then, and cannot be
/// finished (only undone) once the staged replacement is gone.
pub proof fn lemma_old_target_pending_while_staged(f: EntryView, current: Option<Seq<char>>)
    requires
        current == f.old,
        current != Some(f.new),
    ensures
        file_status(f, current, true) == Status::Pending,
        file_status(f, current, false) == Status::Unrecoverable,
{
}

} // verus!
