use hydra_httpdl::error::HydraError;
use hydra_httpdl::scheduler::{Scheduler, SchedulerStep};

fn jobs(n: u64) -> Vec<(u64, u64)> {
    (0..n).map(|i| (i * 10, i * 10 + 9)).collect()
}

#[test]
fn window_bounds_inflight_tasks() {
    let mut s = Scheduler::new(jobs(3), 2);
    assert_eq!(s.step(), SchedulerStep::Dispatch(0));
    assert_eq!(s.step(), SchedulerStep::Dispatch(1));
    // The window of two is full: the third job must wait for a completion.
    assert_eq!(s.step(), SchedulerStep::Wait);
    s.task_finished(Ok(()));
    assert_eq!(s.step(), SchedulerStep::Dispatch(2));
    assert_eq!(s.step(), SchedulerStep::Wait);
    s.task_finished(Ok(()));
    assert_eq!(s.step(), SchedulerStep::Wait);
    s.task_finished(Ok(()));
    assert_eq!(s.step(), SchedulerStep::Done);
    assert!(s.outcome().is_ok());
}

#[test]
fn failure_stops_dispatch_and_drains_inflight_tasks() {
    let mut s = Scheduler::new(jobs(5), 2);
    assert_eq!(s.step(), SchedulerStep::Dispatch(0));
    assert_eq!(s.step(), SchedulerStep::Dispatch(1));
    s.task_finished(Err(HydraError::ChunkFetchExhausted));
    // One task is still in flight; it is drained, never replaced.
    assert_eq!(s.step(), SchedulerStep::Wait);
    s.task_finished(Ok(()));
    assert_eq!(s.step(), SchedulerStep::Aborted);
    assert!(matches!(
        s.outcome(),
        Err(HydraError::ChunkFetchExhausted)
    ));
}

#[test]
fn first_error_is_kept() {
    let mut s = Scheduler::new(jobs(2), 2);
    assert_eq!(s.step(), SchedulerStep::Dispatch(0));
    assert_eq!(s.step(), SchedulerStep::Dispatch(1));
    s.task_finished(Err(HydraError::ChunkFetchExhausted));
    s.task_finished(Err(HydraError::IoFailure));
    assert_eq!(s.step(), SchedulerStep::Aborted);
    assert!(matches!(
        s.outcome(),
        Err(HydraError::ChunkFetchExhausted)
    ));
}

#[test]
fn empty_job_list_is_done_at_once() {
    let mut s = Scheduler::new(Vec::new(), 4);
    assert_eq!(s.step(), SchedulerStep::Done);
    assert!(s.outcome().is_ok());
}

#[test]
fn single_connection_serializes_the_run() {
    let mut s = Scheduler::new(jobs(2), 1);
    assert_eq!(s.step(), SchedulerStep::Dispatch(0));
    assert_eq!(s.step(), SchedulerStep::Wait);
    s.task_finished(Ok(()));
    assert_eq!(s.step(), SchedulerStep::Dispatch(1));
    assert_eq!(s.step(), SchedulerStep::Wait);
    s.task_finished(Ok(()));
    assert_eq!(s.step(), SchedulerStep::Done);
}
