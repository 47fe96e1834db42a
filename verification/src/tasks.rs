//! Scheduling the install tasks of a run: which pool a task waits in, the
//! progress slots each task owns, and what follows an attempt at a merged
//! download (one ranged request serving several files).

use vstd::prelude::*;

verus! {

/// The pools install tasks wait in, each with its own number of permits.
#[derive(Clone, Copy, Debug, PartialEq, Eq, Structural)]
pub enum TaskPool {
    /// Copies out of the installer's own package.
    Local,
    /// Downloads of at least the run's size threshold.
    Large,
    /// The other downloads.
    Small,
}

impl TaskPool {
    /// How many tasks of the pool run at once.
    pub fn permits(self) -> (r: usize)
        ensures
            r == match self {
                TaskPool::Local => 16usize,
                TaskPool::Large => 5usize,
                TaskPool::Small => 11usize,
            },
    {
        match self {
            TaskPool::Local => 16,
            TaskPool::Large => 5,
            TaskPool::Small => 11,
        }
    }
}

/// The pool of a task: local copies in their own pool, downloads by their
/// size against the run's threshold.
pub fn task_pool(is_local: bool, bytes: u64, threshold: u64) -> (r: TaskPool)
    ensures
        r == (if is_local {
            TaskPool::Local
        } else if bytes >= threshold {
            TaskPool::Large
        } else {
            TaskPool::Small
        }),
{
    if is_local {
        TaskPool::Local
    } else if bytes >= threshold {
        TaskPool::Large
    } else {
        TaskPool::Small
    }
}

/// The number of files of the tasks before the `k`-th.
pub open spec fn files_before(counts: Seq<usize>, k: int) -> int
    decreases k,
{
    if k <= 0 {
        0
    } else {
        files_before(counts, k - 1) + counts[k - 1]
    }
}

/// The progress slots of each task: a task of `n` files (one for a single
/// file) owns the `n` slots after those of the tasks before it; each entry
/// is the first slot and the number of slots.
pub fn progress_slots(counts: &Vec<usize>) -> (r: Vec<(usize, usize)>)
    requires
        files_before(counts@, counts@.len() as int) <= usize::MAX,
    ensures
        r@.len() == counts@.len(),
        forall|k: int| 0 <= k < counts@.len() ==> #[trigger] r@[k] == (files_before(counts@, k) as usize, counts@[k]),
{
    let mut out: Vec<(usize, usize)> = Vec::new();
    let mut cursor: usize = 0;
    let mut k: usize = 0;
    while k < counts.len()
        invariant
            k <= counts@.len(),
            out@.len() == k,
            cursor == files_before(counts@, k as int),
            files_before(counts@, counts@.len() as int) <= usize::MAX,
            forall|j: int| 0 <= j < k ==> #[trigger] out@[j] == (files_before(counts@, j) as usize, counts@[j]),
        decreases counts@.len() - k,
    {
        proof {
            lemma_files_before_grows(counts@, k as int + 1, counts@.len() as int);
        }
        out.push((cursor, counts[k]));
        cursor = cursor + counts[k];
        k += 1;
    }
    out
}

proof fn lemma_files_before_grows(counts: Seq<usize>, a: int, b: int)
    requires
        0 <= a <= b <= counts.len(),
    ensures
        files_before(counts, a) <= files_before(counts, b),
    decreases b - a,
{
    if a < b {
        lemma_files_before_grows(counts, a, b - 1);
    }
}

/// How an attempt at a merged download ended.
#[derive(Clone, Debug, PartialEq, Eq)]
pub enum MergedOutcome {
    /// Every file of the download was installed.
    Complete,
    /// The download ran; the files at these positions failed.
    Partial(Vec<usize>),
    /// The download itself failed.
    Failed,
}

/// What a run does after an attempt at a merged download.
#[derive(Clone, Debug, PartialEq, Eq)]
pub enum MergedStep {
    Done,
    /// Try the merged download once more.
    Retry,
    /// Install the files at these positions one by one.
    Fallback(Vec<usize>),
}

/// After the first attempt (`retried` false) a failed download is tried
/// again; after the second, every file falls back to its own download.
/// Files that failed in a download that ran fall back on their own.
pub fn merged_next(outcome: MergedOutcome, retried: bool, files: usize) -> (r: MergedStep)
    ensures
        outcome is Complete ==> r == MergedStep::Done,
        (outcome matches MergedOutcome::Partial(f) && f@.len() == 0) ==> r == MergedStep::Done,
        (outcome matches MergedOutcome::Partial(f) && f@.len() > 0) ==> r == MergedStep::Fallback(
            outcome->Partial_0,
        ),
        (outcome is Failed && !retried) ==> r == MergedStep::Retry,
        (outcome is Failed && retried) ==> (r matches MergedStep::Fallback(all) && all@ == Seq::new(
            files as nat,
            |i: int| i as usize,
        )),
{
    match outcome {
        MergedOutcome::Complete => MergedStep::Done,
        MergedOutcome::Partial(failed) => if failed.len() == 0 {
            MergedStep::Done
        } else {
            MergedStep::Fallback(failed)
        },
        MergedOutcome::Failed => if retried {
            let mut all: Vec<usize> = Vec::new();
            let mut i: usize = 0;
            while i < files
                invariant
                    i <= files,
                    all@.len() == i,
                    forall|j: int| 0 <= j < i ==> #[trigger] all@[j] == j,
                decreases files - i,
            {
                all.push(i);
                i += 1;
            }
            assert(all@ =~= Seq::new(files as nat, |i: int| i as usize));
            MergedStep::Fallback(all)
        } else {
            MergedStep::Retry
        },
    }
}

} // verus!
