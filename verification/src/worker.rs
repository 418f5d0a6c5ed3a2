//! One worker of the pool: the decisions of its loop, without the thread.

use vstd::prelude::*;
use crate::queue::Received;

verus! {

/// Where a worker stands in its life.
#[derive(Clone, Copy, Debug, PartialEq, Eq, Structural)]
pub enum WorkerState {
    /// Alive and waiting for its next job.
    Idle,
    /// Alive and running the job with this ticket.
    Running(u64),
    /// Its loop has ended; the thread has not been joined yet.
    Exited,
    /// The job with this ticket failed fatally and took the thread down
    /// with it. Such a worker takes no further job and cannot be joined.
    Crashed(u64),
    /// Its thread has been joined.
    Joined,
}

/// What the worker's thread does next.
#[derive(Clone, Copy, Debug, PartialEq, Eq, Structural)]
pub enum WorkerAction {
    /// Run the job with this ticket to completion, then report back.
    Run(u64),
    /// Block until the queue changes, then ask again.
    Wait,
    /// Leave the loop and let the thread end.
    Exit,
}

/// A worker: its number within the pool and its state.
#[derive(Clone, Copy, Debug)]
pub struct Worker {
    pub id: usize,
    pub state: WorkerState,
}

/// The state after an idle worker was handed `received`.
pub open spec fn state_after(received: Received) -> WorkerState {
    match received {
        Received::Job(job) => WorkerState::Running(job),
        Received::Empty => WorkerState::Idle,
        Received::Disconnected => WorkerState::Exited,
    }
}

/// What a worker's thread does after it was handed `received`.
pub open spec fn action_after(received: Received) -> WorkerAction {
    match received {
        Received::Job(job) => WorkerAction::Run(job),
        Received::Empty => WorkerAction::Wait,
        Received::Disconnected => WorkerAction::Exit,
    }
}

impl Worker {
    /// A live, idle worker with the given number.
    pub fn new(id: usize) -> (w: Worker)
        ensures
            w.id == id,
            w.state == WorkerState::Idle,
    {
        Worker { id, state: WorkerState::Idle }
    }

    /// One turn of the loop: an idle worker is handed what the queue gave.
    /// A job is run, an empty queue is waited on, and a disconnected queue
    /// ends the loop, the only way a worker ever stops.
    pub fn on_receive(&mut self, received: Received) -> (action: WorkerAction)
        requires
            old(self).state == WorkerState::Idle,
        ensures
            final(self).id == old(self).id,
            final(self).state == state_after(received),
            action == action_after(received),
    {
        match received {
            Received::Job(job) => {
                self.state = WorkerState::Running(job);
                WorkerAction::Run(job)
            },
            Received::Empty => WorkerAction::Wait,
            Received::Disconnected => {
                self.state = WorkerState::Exited;
                WorkerAction::Exit
            },
        }
    }

    /// The running job failed fatally: the worker is lost for good. Nothing
    /// catches the fault and nothing replaces the worker.
    pub fn on_fault(&mut self) -> (job: u64)
        requires
            old(self).state is Running,
        ensures
            final(self).id == old(self).id,
            old(self).state == WorkerState::Running(job),
            final(self).state == WorkerState::Crashed(job),
    {
        let job = self.running_job();
        self.state = WorkerState::Crashed(job);
        job
    }

    /// The ticket of the job that a running worker runs.
    pub fn running_job(&self) -> (job: u64)
        requires
            self.state is Running,
        ensures
            self.state == WorkerState::Running(job),
    {
        match self.state {
            WorkerState::Running(job) => job,
            _ => 0,
        }
    }

    /// The running job has returned: the worker is idle again.
    pub fn on_finished(&mut self) -> (job: u64)
        requires
            old(self).state is Running,
        ensures
            final(self).id == old(self).id,
            old(self).state == WorkerState::Running(job),
            final(self).state == WorkerState::Idle,
    {
        let job = self.running_job();
        self.state = WorkerState::Idle;
        job
    }
}

} // verus!
