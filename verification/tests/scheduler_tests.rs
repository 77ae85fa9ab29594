use proxy_vet::evaluate::{DeadReason, Evaluation};
use proxy_vet::persist::{after_insert, may_cleanup, SyncPhase};
use proxy_vet::scheduler::Scheduler;

#[test]
fn scheduler_respects_its_cap() {
    let mut s = Scheduler::new(5, 2);
    assert!(s.can_start());
    let first = s.start();
    assert_eq!(first, 0);
    let second = s.start();
    assert_eq!(second, 1);
    assert!(!s.can_start());
    s.complete(Evaluation::Dead(DeadReason::Timeout));
    assert!(s.can_start());
}

#[test]
fn scheduler_collects_one_result_per_completion() {
    let total: usize = 3;
    let mut s = Scheduler::new(total, 2);
    let mut in_flight: usize = 0;
    let mut started: usize = 0;
    let mut done: usize = 0;
    while done < total {
        while s.can_start() {
            s.start();
            started += 1;
            in_flight += 1;
            assert!(in_flight <= 2);
        }
        s.complete(Evaluation::Dead(DeadReason::ConnectFailed));
        done += 1;
        in_flight -= 1;
    }
    assert_eq!(started, total);
    assert!(s.finished());
    let results = s.into_results();
    assert_eq!(results.len(), total);
}

#[test]
fn scheduler_with_no_candidates_is_finished_at_once() {
    let s = Scheduler::new(0, 4);
    assert!(!s.can_start());
    assert!(s.finished());
    assert_eq!(s.into_results().len(), 0);
}

#[test]
fn cleanup_runs_only_after_a_committed_batch() {
    assert_eq!(after_insert(true), SyncPhase::Committed);
    assert_eq!(after_insert(false), SyncPhase::Failed);
    assert!(may_cleanup(&SyncPhase::Committed));
    assert!(!may_cleanup(&SyncPhase::Failed));
    assert!(!may_cleanup(&SyncPhase::Pending));
}
