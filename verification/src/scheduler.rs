//! Bounded-window chunk scheduler. The decision logic is a state machine
//! over plain values: which chunk to dispatch next, when to wait for an
//! in-flight task, and when the run is finished or aborted. The caller
//! performs the dispatched fetches and reports each completion back.
//!
//! On irrecoverable failure no further chunk is dispatched; tasks already
//! in flight are drained, and the first fatal error observed is kept as the
//! run's outcome. Bits already persisted stay valid for a future resume.

use vstd::prelude::*;
use crate::error::HydraError;

verus! {

/// What the scheduler asks the caller to do next.
#[derive(Clone, Copy, Debug, PartialEq, Eq, Structural)]
pub enum SchedulerStep {
    /// Start fetching the chunk at this position of the job list.
    Dispatch(usize),
    /// Wait for one in-flight task to finish and report its outcome.
    Wait,
    /// Every chunk was dispatched and completed successfully.
    Done,
    /// A task failed fatally and the in-flight tasks are drained; the run
    /// is over and `first_error` holds its outcome.
    Aborted,
}

/// The scheduler's state: a fixed job list walked left to right under a
/// bounded window of in-flight tasks.
pub struct Scheduler {
    /// The inclusive byte ranges still to fetch, in ascending index order.
    pub jobs: Vec<(u64, u64)>,
    /// How many jobs have been dispatched so far; the next one to start.
    pub next: usize,
    /// Tasks currently in flight.
    pub in_flight: usize,
    /// Window limit: the configured connection count.
    pub window: usize,
    /// The first fatal error reported, if any; set once and kept.
    pub first_error: Option<HydraError>,
}

impl Scheduler {
    /// Dispatch never passes the job list, the window is positive and never
    /// exceeded.
    pub open spec fn wf(self) -> bool {
        &&& self.next <= self.jobs@.len()
        &&& self.in_flight <= self.window
        &&& self.window >= 1
        &&& self.in_flight <= self.next
    }

    /// A task failed and no further chunk may be dispatched.
    pub open spec fn failed(self) -> bool {
        self.first_error is Some
    }

    /// A fresh scheduler over `jobs` with a window of `window` connections.
    pub fn new(jobs: Vec<(u64, u64)>, window: usize) -> (r: Self)
        requires
            window >= 1,
        ensures
            r.wf(),
            r.jobs@ == jobs@,
            r.next == 0,
            r.in_flight == 0,
            r.window == window,
            !r.failed(),
    {
        Scheduler { jobs, next: 0, in_flight: 0, window, first_error: None }
    }

    /// Decides the next action. Dispatches while no task has failed, jobs
    /// remain and the window has room; waits while the window is full, the
    /// jobs are exhausted but tasks are in flight, or a failure is
    /// draining; otherwise the run is over — `Done` if every job finished,
    /// `Aborted` if a task failed.
    pub fn step(&mut self) -> (s: SchedulerStep)
        requires
            old(self).wf(),
        ensures
            final(self).wf(),
            final(self).jobs@ == old(self).jobs@,
            final(self).window == old(self).window,
            final(self).first_error == old(self).first_error,
            ({
                let can_dispatch = !old(self).failed() && old(self).next < old(self).jobs@.len()
                    && old(self).in_flight < old(self).window;
                &&& can_dispatch ==> {
                    &&& s == SchedulerStep::Dispatch(old(self).next)
                    &&& final(self).next == old(self).next + 1
                    &&& final(self).in_flight == old(self).in_flight + 1
                }
                &&& !can_dispatch ==> {
                    &&& final(self).next == old(self).next
                    &&& final(self).in_flight == old(self).in_flight
                    &&& old(self).in_flight > 0 ==> s == SchedulerStep::Wait
                    &&& old(self).in_flight == 0 && old(self).failed() ==> s
                        == SchedulerStep::Aborted
                    &&& old(self).in_flight == 0 && !old(self).failed() ==> s
                        == SchedulerStep::Done
                }
            }),
            s matches SchedulerStep::Dispatch(i) ==> i < old(self).jobs@.len(),
    {
        if self.first_error.is_none() && self.next < self.jobs.len() && self.in_flight
            < self.window {
            let i = self.next;
            self.next = self.next + 1;
            self.in_flight = self.in_flight + 1;
            SchedulerStep::Dispatch(i)
        } else if self.in_flight > 0 {
            SchedulerStep::Wait
        } else if self.first_error.is_some() {
            SchedulerStep::Aborted
        } else {
            SchedulerStep::Done
        }
    }

    /// Reports one finished task. A success leaves the error state alone; a
    /// failure marks the run failed, keeping the first error observed.
    pub fn task_finished(&mut self, outcome: Result<(), HydraError>)
        requires
            old(self).wf(),
            old(self).in_flight > 0,
        ensures
            final(self).wf(),
            final(self).jobs@ == old(self).jobs@,
            final(self).next == old(self).next,
            final(self).window == old(self).window,
            final(self).in_flight == old(self).in_flight - 1,
            outcome is Ok ==> final(self).first_error == old(self).first_error,
            outcome matches Err(e) ==> final(self).first_error == (if old(self).failed() {
                old(self).first_error
            } else {
                Some(e)
            }),
    {
        self.in_flight = self.in_flight - 1;
        match outcome {
            Ok(_) => (),
            Err(e) => {
                if self.first_error.is_none() {
                    self.first_error = Some(e);
                }
            },
        }
    }

    /// The run's outcome once `step` returned `Done` or `Aborted`: `Ok`
    /// exactly when every job was dispatched and none failed.
    pub fn outcome(&self) -> (r: Result<(), HydraError>)
        requires
            self.wf(),
            self.in_flight == 0,
            self.failed() || self.next == self.jobs@.len(),
        ensures
            !self.failed() ==> r is Ok,
            self.first_error matches Some(e) ==> r == Err::<(), HydraError>(e),
    {
        match self.first_error {
            None => Ok(()),
            Some(e) => Err(e),
        }
    }
}

} // verus!
