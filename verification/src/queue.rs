//! The job queue: a first-in, first-out conduit of job tickets with one
//! sending side, which can be closed, and one receiving side shared by all
//! workers.

use vstd::prelude::*;
use std::collections::VecDeque;

verus! {

/// What a worker gets when it takes its turn at the receiving side.
#[derive(Clone, Copy, Debug, PartialEq, Eq, Structural)]
pub enum Received {
    /// The oldest pending job, now removed from the queue.
    Job(u64),
    /// Nothing is pending but the sending side is still open: the worker waits.
    Empty,
    /// Nothing is pending and the sending side is closed: no job will ever come.
    Disconnected,
}

/// Why a job was not accepted.
#[derive(Clone, Copy, Debug, PartialEq, Eq, Structural)]
pub enum SubmitError {
    /// The sending side has been closed: teardown has begun.
    Closed,
}

/// What the receiving side gives when `pending` is queued, oldest first.
pub open spec fn oldest(pending: Seq<u64>, open: bool) -> Received {
    if pending.len() > 0 {
        Received::Job(pending[0])
    } else if open {
        Received::Empty
    } else {
        Received::Disconnected
    }
}

/// A queue of job tickets, oldest first.
pub struct JobQueue {
    pending: VecDeque<u64>,
    open: bool,
}

impl View for JobQueue {
    type V = Seq<u64>;

    /// The pending jobs, oldest first.
    closed spec fn view(&self) -> Seq<u64> {
        self.pending@
    }
}

impl JobQueue {
    /// Whether the sending side still exists.
    pub closed spec fn spec_is_open(&self) -> bool {
        self.open
    }

    /// An open queue with nothing pending.
    pub fn new() -> (q: JobQueue)
        ensures
            q@ == Seq::<u64>::empty(),
            q.is_open(),
    {
        JobQueue { pending: VecDeque::new(), open: true }
    }

    /// Whether the sending side still exists.
    #[verifier::when_used_as_spec(spec_is_open)]
    pub fn is_open(&self) -> (b: bool)
        ensures
            b == self.is_open(),
    {
        self.open
    }

    /// The number of pending jobs.
    pub fn len(&self) -> (n: usize)
        ensures
            n == self@.len(),
    {
        self.pending.len()
    }

    /// Appends `job` behind everything pending, unless the queue is closed;
    /// a closed queue is left as it is and the job is refused.
    pub fn send(&mut self, job: u64) -> (r: Result<(), SubmitError>)
        ensures
            r == (if old(self).is_open() {
                Ok::<(), SubmitError>(())
            } else {
                Err::<(), SubmitError>(SubmitError::Closed)
            }),
            final(self).is_open() == old(self).is_open(),
            final(self)@ == (if old(self).is_open() {
                old(self)@.push(job)
            } else {
                old(self)@
            }),
    {
        if self.open {
            self.pending.push_back(job);
            Ok(())
        } else {
            Err(SubmitError::Closed)
        }
    }

    /// Removes and returns the oldest pending job. With nothing pending the
    /// queue is unchanged and the answer tells a queue that may still be
    /// filled from one that never will be.
    pub fn receive(&mut self) -> (r: Received)
        ensures
            final(self).is_open() == old(self).is_open(),
            r == oldest(old(self)@, old(self).is_open()),
            final(self)@ == (if old(self)@.len() > 0 {
                old(self)@.skip(1)
            } else {
                old(self)@
            }),
    {
        match self.pending.pop_front() {
            Some(job) => Received::Job(job),
            None => if self.open {
                Received::Empty
            } else {
                Received::Disconnected
            },
        }
    }

    /// Closes the sending side. What is pending stays and can still be
    /// received; closing twice is the same as closing once.
    pub fn close(&mut self)
        ensures
            !final(self).is_open(),
            final(self)@ == old(self)@,
    {
        self.open = false;
    }
}

} // verus!
