use kachina::tasks::{merged_next, progress_slots, task_pool, MergedOutcome, MergedStep, TaskPool};

#[test]
fn pools_by_locality_and_size() {
    assert_eq!(task_pool(true, 1 << 30, 10), TaskPool::Local);
    assert_eq!(task_pool(false, 10, 10), TaskPool::Large);
    assert_eq!(task_pool(false, 9, 10), TaskPool::Small);
    assert_eq!(task_pool(false, 0, 0), TaskPool::Large);
    assert_eq!(TaskPool::Local.permits(), 16);
    assert_eq!(TaskPool::Large.permits(), 5);
    assert_eq!(TaskPool::Small.permits(), 11);
}

#[test]
fn progress_slots_follow_each_other() {
    assert_eq!(progress_slots(&vec![1, 3, 1, 2]), vec![(0, 1), (1, 3), (4, 1), (5, 2)]);
    assert!(progress_slots(&Vec::new()).is_empty());
}

#[test]
fn merged_download_retries_once_then_falls_back() {
    assert_eq!(merged_next(MergedOutcome::Complete, false, 3), MergedStep::Done);
    assert_eq!(merged_next(MergedOutcome::Partial(vec![]), true, 3), MergedStep::Done);
    assert_eq!(merged_next(MergedOutcome::Partial(vec![2]), false, 3), MergedStep::Fallback(vec![2]));
    assert_eq!(merged_next(MergedOutcome::Failed, false, 3), MergedStep::Retry);
    assert_eq!(merged_next(MergedOutcome::Failed, true, 3), MergedStep::Fallback(vec![0, 1, 2]));
}
