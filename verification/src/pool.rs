//! The worker pool: a fixed set of workers, the sending side of the job
//! queue, and the order of shutdown.
//!
//! The pool decides and keeps the books; it starts no thread and runs no
//! job. Whoever owns the threads reports each worker's turn at the queue and
//! each job's end, and does what the pool answers.

use vstd::prelude::*;
use crate::model::{
    lemma_close_consistent, lemma_completion_consistent, lemma_delivery_consistent,
    lemma_exit_consistent, lemma_fault_consistent, lemma_fresh_consistent,
    lemma_join_consistent,
    lemma_submit_consistent, joined_through, JobStatus, Phase, PoolView,
};
use crate::queue::{JobQueue, Received, SubmitError};
use crate::worker::{state_after, Worker, WorkerState};

verus! {

/// What one step of joining did.
#[derive(Clone, Copy, Debug, PartialEq, Eq, Structural)]
pub enum JoinStep {
    /// The worker with this number had exited and is now joined.
    Joined(usize),
    /// The worker with this number is next in line and has not exited yet.
    Waiting(usize),
    /// The worker with this number is next in line and has crashed: it
    /// cannot be joined cleanly, and teardown cannot complete.
    Failed(usize),
    /// No worker is left to join.
    Finished,
}

/// What the next step of joining does in state `v`: it goes by the worker
/// next in line.
pub open spec fn next_join(v: PoolView) -> JoinStep {
    if v.joined >= v.workers.len() {
        JoinStep::Finished
    } else {
        match v.workers[v.joined as int] {
            WorkerState::Exited => JoinStep::Joined(v.joined as usize),
            WorkerState::Crashed(_) => JoinStep::Failed(v.joined as usize),
            _ => JoinStep::Waiting(v.joined as usize),
        }
    }
}

/// What the pool remembers only in proofs: the history of its jobs.
pub struct Ledger {
    pub submitted: Seq<u64>,
    pub delivered: nat,
    pub status: Seq<JobStatus>,
    pub slot: Seq<int>,
    pub completed: Seq<int>,
}

/// A pool of a fixed number of workers around one job queue.
pub struct ThreadPool {
    workers: Vec<Worker>,
    queue: JobQueue,
    joined: usize,
    ledger: Ghost<Ledger>,
}

impl View for ThreadPool {
    type V = PoolView;

    closed spec fn view(&self) -> PoolView {
        PoolView {
            workers: Seq::new(self.workers@.len(), |i: int| self.workers@[i].state),
            pending: self.queue@,
            accepting: self.queue.is_open(),
            joined: self.joined as nat,
            submitted: self.ledger@.submitted,
            delivered: self.ledger@.delivered,
            status: self.ledger@.status,
            slot: self.ledger@.slot,
            completed: self.ledger@.completed,
        }
    }
}

impl ThreadPool {
    /// Worker `i` carries the number `i`.
    pub closed spec fn numbered(&self) -> bool {
        forall|i: int| 0 <= i < self.workers@.len() ==> (#[trigger] self.workers@[i]).id == i
    }

    /// The pool is well formed: its workers are numbered in construction
    /// order and its state is consistent.
    pub open spec fn wf(&self) -> bool {
        self.numbered() && self@.consistent()
    }

    /// A pool of `size` workers, all alive and idle, that accepts jobs.
    pub fn new(size: usize) -> (pool: ThreadPool)
        requires
            size > 0,
        ensures
            pool.wf(),
            pool@ == PoolView::fresh(size as nat),
    {
        let mut workers: Vec<Worker> = Vec::new();
        let mut id: usize = 0;
        while id < size
            invariant
                id <= size,
                workers@.len() == id,
                forall|i: int|
                    0 <= i < id ==> (#[trigger] workers@[i]).id == i && workers@[i].state
                        == WorkerState::Idle,
            decreases size - id,
        {
            workers.push(Worker::new(id));
            id += 1;
        }
        let pool = ThreadPool {
            workers,
            queue: JobQueue::new(),
            joined: 0,
            ledger: Ghost(
                Ledger {
                    submitted: Seq::empty(),
                    delivered: 0,
                    status: Seq::empty(),
                    slot: Seq::new(size as nat, |i: int| 0int),
                    completed: Seq::empty(),
                },
            ),
        };
        proof {
            let f = PoolView::fresh(size as nat);
            assert(pool@.workers =~= f.workers);
            assert(pool@.pending =~= f.pending);
            lemma_fresh_consistent(size as nat);
        }
        pool
    }

    /// The number of workers, fixed when the pool was made.
    pub fn size(&self) -> (n: usize)
        ensures
            n == self@.size(),
    {
        self.workers.len()
    }

    /// The state of worker `id`.
    pub fn worker_state(&self, id: usize) -> (s: WorkerState)
        requires
            id < self@.size(),
        ensures
            s == self@.workers[id as int],
    {
        self.workers[id].state
    }

    /// The number of jobs waiting in the queue.
    pub fn pending(&self) -> (n: usize)
        ensures
            n == self@.pending.len(),
    {
        self.queue.len()
    }

    /// Where the pool stands in its lifecycle.
    pub fn phase(&self) -> (p: Phase)
        ensures
            p == self@.phase(),
    {
        if self.queue.is_open() {
            Phase::Running
        } else if self.joined < self.workers.len() {
            Phase::ShuttingDown
        } else {
            Phase::Stopped
        }
    }

    /// Submits `job`: it is queued behind every job accepted before it and
    /// the call returns at once, whatever the workers are doing. Once
    /// teardown has begun the job is refused and nothing changes.
    pub fn execute(&mut self, job: u64) -> (r: Result<(), SubmitError>)
        requires
            old(self).wf(),
        ensures
            final(self).wf(),
            r == (if old(self)@.accepting {
                Ok::<(), SubmitError>(())
            } else {
                Err::<(), SubmitError>(SubmitError::Closed)
            }),
            final(self)@ == (if old(self)@.accepting {
                old(self)@.after_submit(job)
            } else {
                old(self)@
            }),
    {
        let r = self.queue.send(job);
        match r {
            Ok(()) => {
                self.ledger = Ghost(
                    Ledger {
                        submitted: self.ledger@.submitted.push(job),
                        status: self.ledger@.status.push(JobStatus::Queued),
                        ..self.ledger@
                    },
                );
                proof {
                    assert(final(self)@.workers =~= old(self)@.workers);
                    lemma_submit_consistent(old(self)@, job);
                }
            },
            Err(_) => {},
        }
        r
    }

    /// Worker `id`, idle, takes its turn at the queue. It gets the oldest
    /// pending job and runs it; or it finds the queue empty and waits; or it
    /// finds the queue closed and drained and leaves its loop.
    pub fn worker_receive(&mut self, id: usize) -> (r: Received)
        requires
            old(self).wf(),
            id < old(self)@.size(),
            old(self)@.workers[id as int] == WorkerState::Idle,
        ensures
            final(self).wf(),
            r == old(self)@.received(),
            final(self)@ == old(self)@.after_turn(id as int),
            final(self)@.workers[id as int] == state_after(r),
            r is Job ==> old(self)@.pending[0] == old(self)@.submitted[old(self)@.delivered as int],
    {
        let r = self.queue.receive();
        let mut worker = self.workers[id];
        worker.on_receive(r);
        self.workers.set(id, worker);
        match r {
            Received::Job(_) => {
                self.ledger = Ghost(
                    Ledger {
                        delivered: self.ledger@.delivered + 1,
                        status: self.ledger@.status.update(
                            self.ledger@.delivered as int,
                            JobStatus::RunningOn(id as int),
                        ),
                        slot: self.ledger@.slot.update(id as int, self.ledger@.delivered as int),
                        ..self.ledger@
                    },
                );
                proof {
                    assert(final(self)@.workers =~= old(self)@.after_delivery(id as int).workers);
                    lemma_delivery_consistent(old(self)@, id as int);
                }
            },
            Received::Empty => {
                proof {
                    assert(final(self)@.workers =~= old(self)@.workers);
                }
            },
            Received::Disconnected => {
                proof {
                    assert(final(self)@.workers =~= old(self)@.after_exit(id as int).workers);
                    lemma_exit_consistent(old(self)@, id as int);
                }
            },
        }
        r
    }

    /// Worker `id` reports that the job it was running has returned. The
    /// job, which was not complete before, is now; the worker is idle again.
    pub fn worker_finish(&mut self, id: usize) -> (job: u64)
        requires
            old(self).wf(),
            id < old(self)@.size(),
            old(self)@.workers[id as int] is Running,
        ensures
            final(self).wf(),
            old(self)@.workers[id as int] == WorkerState::Running(job),
            final(self)@ == old(self)@.after_completion(id as int),
            !old(self)@.completed.contains(old(self)@.slot[id as int]),
    {
        let mut worker = self.workers[id];
        let job = worker.on_finished();
        self.workers.set(id, worker);
        self.ledger = Ghost(
            Ledger {
                status: self.ledger@.status.update(self.ledger@.slot[id as int], JobStatus::Done),
                completed: self.ledger@.completed.push(self.ledger@.slot[id as int]),
                ..self.ledger@
            },
        );
        proof {
            assert(final(self)@.workers =~= old(self)@.after_completion(id as int).workers);
            lemma_completion_consistent(old(self)@, id as int);
        }
        job
    }

    /// Worker `id` reports that the job it was running failed fatally. The
    /// worker is lost with it: the pool neither runs the job again nor
    /// replaces the worker, and the other workers go on.
    pub fn worker_fault(&mut self, id: usize) -> (job: u64)
        requires
            old(self).wf(),
            id < old(self)@.size(),
            old(self)@.workers[id as int] is Running,
        ensures
            final(self).wf(),
            old(self)@.workers[id as int] == WorkerState::Running(job),
            final(self)@ == old(self)@.after_fault(id as int),
    {
        let mut worker = self.workers[id];
        let job = worker.on_fault();
        self.workers.set(id, worker);
        self.ledger = Ghost(
            Ledger {
                status: self.ledger@.status.update(
                    self.ledger@.slot[id as int],
                    JobStatus::LostOn(id as int),
                ),
                ..self.ledger@
            },
        );
        proof {
            lemma_fault_consistent(old(self)@, id as int);
            assert(final(self)@.workers =~= old(self)@.after_fault(id as int).workers);
        }
        job
    }

    /// Begins teardown: the sending side of the queue is closed. This is the
    /// only signal the workers get. What is queued is still delivered; no
    /// job is accepted from now on. Closing a closed pool changes nothing.
    pub fn shutdown(&mut self)
        requires
            old(self).wf(),
        ensures
            final(self).wf(),
            final(self)@ == old(self)@.after_close(),
    {
        self.queue.close();
        proof {
            assert(final(self)@.workers =~= old(self)@.workers);
            lemma_close_consistent(old(self)@);
        }
    }

    /// One step of joining the workers in construction order. The next
    /// worker in line is joined if it has exited. If it has crashed, the
    /// join fails and nothing changes; if it is still in its loop, the caller
    /// has to wait for it and nothing changes.
    pub fn join_next(&mut self) -> (r: JoinStep)
        requires
            old(self).wf(),
        ensures
            final(self).wf(),
            r == next_join(old(self)@),
            final(self)@ == (if r is Joined {
                old(self)@.after_join()
            } else {
                old(self)@
            }),
    {
        let next = self.joined;
        if next >= self.workers.len() {
            return JoinStep::Finished;
        }
        let mut worker = self.workers[next];
        match worker.state {
            WorkerState::Exited => {
                worker.state = WorkerState::Joined;
                self.workers.set(next, worker);
                self.joined = next + 1;
                proof {
                    assert(final(self)@.workers =~= old(self)@.after_join().workers);
                    lemma_join_consistent(old(self)@);
                }
                JoinStep::Joined(next)
            },
            WorkerState::Crashed(_) => JoinStep::Failed(next),
            _ => JoinStep::Waiting(next),
        }
    }

    /// Tears the pool down as far as the workers have come: closes the
    /// sending side, then joins the workers in construction order up to the
    /// first that has not exited. The answer tells whether every worker is
    /// joined, or which worker the caller has to wait for, or which one has
    /// crashed and cannot be joined.
    pub fn teardown(&mut self) -> (r: JoinStep)
        requires
            old(self).wf(),
        ensures
            final(self).wf(),
            final(self)@ == joined_through(old(self)@.after_close()),
            r == next_join(final(self)@),
            !(r is Joined),
    {
        self.shutdown();
        loop
            invariant
                self.wf(),
                joined_through(self@) == joined_through(old(self)@.after_close()),
            decreases self@.workers.len() - self@.joined,
        {
            let step = self.join_next();
            match step {
                JoinStep::Joined(_) => {},
                _ => {
                    return step;
                },
            }
        }
    }
}

} // verus!
