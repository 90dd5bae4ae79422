use hello_server::thread_pool::JobCount;

#[test]
fn new_counter_is_empty() {
    let c = JobCount::new();
    assert!(c.is_empty());
    assert_eq!(c.in_flight(), 0);
}

#[test]
fn counter_drains_after_every_job_finishes() {
    let mut c = JobCount::new();
    for _ in 0..5 {
        c.start_job();
    }
    assert_eq!(c.in_flight(), 5);
    for i in 0..5 {
        assert!(!c.is_empty());
        c.finish_job();
        assert_eq!(c.in_flight(), 4 - i);
    }
    assert!(c.is_empty());
}

#[test]
fn interleaved_jobs_are_counted() {
    let mut c = JobCount::new();
    c.start_job();
    c.start_job();
    c.finish_job();
    c.start_job();
    assert_eq!(c.in_flight(), 2);
    c.finish_job();
    c.finish_job();
    assert!(c.is_empty());
}

use hello_server::thread_pool::{PoolPhase, TeardownStep};

#[test]
fn only_a_running_pool_accepts_jobs() {
    assert!(PoolPhase::Running.accepts_jobs());
    assert!(!PoolPhase::Draining.accepts_jobs());
    assert!(!PoolPhase::Closed.accepts_jobs());
    assert!(!PoolPhase::Joined.accepts_jobs());
}

#[test]
fn teardown_drains_before_closing() {
    let (p, s) = PoolPhase::Running.teardown_step(false);
    assert_eq!((p, s), (PoolPhase::Draining, TeardownStep::WaitForJobs));
    let (p, s) = p.teardown_step(false);
    assert_eq!((p, s), (PoolPhase::Draining, TeardownStep::WaitForJobs));
    let (p, s) = p.teardown_step(true);
    assert_eq!((p, s), (PoolPhase::Closed, TeardownStep::CloseQueue));
    let (p, s) = p.teardown_step(true);
    assert_eq!((p, s), (PoolPhase::Joined, TeardownStep::JoinWorkers));
    let (p, s) = p.teardown_step(true);
    assert_eq!((p, s), (PoolPhase::Joined, TeardownStep::Done));
}

#[test]
fn teardown_with_pending_jobs_then_drained() {
    let mut count = JobCount::new();
    count.start_job();
    count.start_job();
    let mut phase = PoolPhase::Running;
    let mut steps = Vec::new();
    loop {
        let (next, step) = phase.teardown_step(count.is_empty());
        phase = next;
        steps.push(step);
        match step {
            TeardownStep::WaitForJobs => {
                if !count.is_empty() {
                    count.finish_job();
                }
            }
            TeardownStep::Done => break,
            _ => {}
        }
    }
    assert_eq!(
        steps,
        vec![
            TeardownStep::WaitForJobs,
            TeardownStep::WaitForJobs,
            TeardownStep::CloseQueue,
            TeardownStep::JoinWorkers,
            TeardownStep::Done,
        ]
    );
    assert!(count.is_empty());
}
