use gallery_core::loader::AsyncLoader;

#[test]
fn a_fresh_runner_is_idle() {
    let runner = AsyncLoader::new();
    assert!(!runner.is_busy());
}

#[test]
fn starting_work_sets_busy_and_completing_clears_it() {
    let mut runner = AsyncLoader::new();
    let (a, superseded) = runner.load();
    assert!(superseded.is_none());
    assert!(runner.is_busy());
    assert!(runner.complete(a));
    assert!(!runner.is_busy());
}

#[test]
fn a_new_task_supersedes_the_running_one() {
    let mut runner = AsyncLoader::new();
    let (a, _) = runner.load();
    let (b, superseded) = runner.load();
    assert_ne!(a, b);
    // The caller is told to abort task A's underlying work.
    assert_eq!(superseded, Some(a));
    assert!(runner.is_busy());
    let _ = b;
}

#[test]
fn a_stale_completion_never_clears_busy() {
    let mut runner = AsyncLoader::new();
    let (a, _) = runner.load();
    let (b, _) = runner.load();
    // Task A's deferred resolution fires after it was superseded by B.
    assert!(!runner.complete(a));
    assert!(runner.is_busy());
    // Only B's own completion clears the busy state.
    assert!(runner.complete(b));
    assert!(!runner.is_busy());
}

#[test]
fn completing_when_idle_is_a_no_op() {
    let mut runner = AsyncLoader::new();
    assert!(!runner.complete(0));
    assert!(!runner.is_busy());
}
