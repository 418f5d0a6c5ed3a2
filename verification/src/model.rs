//! The pool as a state machine: its abstract state, the steps it can take,
//! and what holds of every state that those steps can reach.
//!
//! The abstract state, [`PoolView`], also keeps the history that a running
//! pool forgets: every job ever accepted, how far delivery has come, and
//! which jobs have completed.

use vstd::prelude::*;
use crate::queue::{oldest, Received};
use crate::worker::WorkerState;

verus! {

/// Where an accepted job stands.
pub enum JobStatus {
    /// Still in the queue.
    Queued,
    /// Handed to the worker with this number, which is running it.
    RunningOn(int),
    /// Ran to completion.
    Done,
    /// Failed fatally on the worker with this number, and is lost.
    LostOn(int),
}

/// The pool's lifecycle.
#[derive(Clone, Copy, Debug, PartialEq, Eq, Structural)]
pub enum Phase {
    /// Accepting jobs.
    Running,
    /// The sending side is closed; workers drain the queue and are joined.
    ShuttingDown,
    /// Every worker has been joined.
    Stopped,
}

/// The abstract state of a pool.
pub struct PoolView {
    /// The state of each worker, in construction order.
    pub workers: Seq<WorkerState>,
    /// The queued jobs, oldest first.
    pub pending: Seq<u64>,
    /// Whether the sending side still exists.
    pub accepting: bool,
    /// How many workers, from the first on, have been joined.
    pub joined: nat,
    /// Every job ever accepted, in the order of acceptance.
    pub submitted: Seq<u64>,
    /// How many of them have been handed to a worker.
    pub delivered: nat,
    /// Where each accepted job stands, by its position in `submitted`.
    pub status: Seq<JobStatus>,
    /// For each worker, the position of the job it took last.
    pub slot: Seq<int>,
    /// The positions of the completed jobs, in the order of completion.
    pub completed: Seq<int>,
}

impl PoolView {
    /// A pool of `size` idle workers that has seen no job.
    pub open spec fn fresh(size: nat) -> PoolView {
        PoolView {
            workers: Seq::new(size, |i: int| WorkerState::Idle),
            pending: Seq::empty(),
            accepting: true,
            joined: 0,
            submitted: Seq::empty(),
            delivered: 0,
            status: Seq::empty(),
            slot: Seq::new(size, |i: int| 0int),
            completed: Seq::empty(),
        }
    }

    /// The number of workers.
    pub open spec fn size(self) -> nat {
        self.workers.len()
    }

    /// Where the pool stands in its lifecycle.
    pub open spec fn phase(self) -> Phase {
        if self.accepting {
            Phase::Running
        } else if self.joined < self.workers.len() {
            Phase::ShuttingDown
        } else {
            Phase::Stopped
        }
    }

    /// Job `k` is where its status says: queued and not yet delivered; or
    /// delivered and running on the one worker that holds it; or delivered
    /// and recorded as complete; or delivered and lost with the worker that
    /// crashed on it.
    pub open spec fn job_accounted(self, k: int) -> bool {
        match self.status[k] {
            JobStatus::Queued => k >= self.delivered,
            JobStatus::RunningOn(w) => {
                &&& k < self.delivered
                &&& 0 <= w < self.workers.len()
                &&& self.workers[w] == WorkerState::Running(self.submitted[k])
                &&& self.slot[w] == k
            },
            JobStatus::Done => k < self.delivered && self.completed.contains(k),
            JobStatus::LostOn(w) => {
                &&& k < self.delivered
                &&& 0 <= w < self.workers.len()
                &&& self.workers[w] == WorkerState::Crashed(self.submitted[k])
            },
        }
    }

    /// Worker `w` is where its state says: joined exactly if its turn to be
    /// joined has passed; if running, then on the job it took last; and out
    /// of its loop only on a closed and drained queue.
    pub open spec fn worker_accounted(self, w: int) -> bool {
        match self.workers[w] {
            WorkerState::Idle => w >= self.joined,
            WorkerState::Running(_) => {
                &&& w >= self.joined
                &&& 0 <= self.slot[w] < self.status.len()
                &&& self.status[self.slot[w]] == JobStatus::RunningOn(w)
            },
            WorkerState::Exited => w >= self.joined && !self.accepting && self.pending.len() == 0,
            WorkerState::Crashed(_) => w >= self.joined,
            WorkerState::Joined => w < self.joined && !self.accepting && self.pending.len() == 0,
        }
    }

    /// The `i`th completion is that of an accepted job whose status is done.
    pub open spec fn completion_accounted(self, i: int) -> bool {
        0 <= self.completed[i] < self.status.len() && self.status[self.completed[i]] is Done
    }

    /// What always holds of a pool: the queue is the undelivered rest of
    /// what was accepted, in order; no job completed twice; and every job,
    /// every worker and every completion is accounted for.
    pub open spec fn consistent(self) -> bool {
        &&& self.workers.len() > 0
        &&& self.slot.len() == self.workers.len()
        &&& self.joined <= self.workers.len()
        &&& self.status.len() == self.submitted.len()
        &&& self.delivered <= self.submitted.len()
        &&& self.pending == self.submitted.skip(self.delivered as int)
        &&& self.completed.no_duplicates()
        &&& forall|k: int| 0 <= k < self.status.len() ==> #[trigger] self.job_accounted(k)
        &&& forall|w: int| 0 <= w < self.workers.len() ==> #[trigger] self.worker_accounted(w)
        &&& forall|i: int|
            0 <= i < self.completed.len() ==> #[trigger] self.completion_accounted(i)
    }

    /// The state after `job` was accepted.
    pub open spec fn after_submit(self, job: u64) -> PoolView {
        PoolView {
            pending: self.pending.push(job),
            submitted: self.submitted.push(job),
            status: self.status.push(JobStatus::Queued),
            ..self
        }
    }

    /// The state after worker `w` took the oldest pending job.
    pub open spec fn after_delivery(self, w: int) -> PoolView {
        PoolView {
            workers: self.workers.update(w, WorkerState::Running(self.pending[0])),
            pending: self.pending.skip(1),
            delivered: self.delivered + 1,
            status: self.status.update(self.delivered as int, JobStatus::RunningOn(w)),
            slot: self.slot.update(w, self.delivered as int),
            ..self
        }
    }

    /// The state after worker `w` found the queue closed and drained.
    pub open spec fn after_exit(self, w: int) -> PoolView {
        PoolView { workers: self.workers.update(w, WorkerState::Exited), ..self }
    }

    /// The state after worker `w` completed the job it was running.
    pub open spec fn after_completion(self, w: int) -> PoolView {
        PoolView {
            workers: self.workers.update(w, WorkerState::Idle),
            status: self.status.update(self.slot[w], JobStatus::Done),
            completed: self.completed.push(self.slot[w]),
            ..self
        }
    }

    /// What a worker gets that takes its turn at the queue.
    pub open spec fn received(self) -> Received {
        oldest(self.pending, self.accepting)
    }

    /// The state after the idle worker `w` took its turn at the queue: it
    /// has the oldest pending job, or waits on, or has left its loop.
    pub open spec fn after_turn(self, w: int) -> PoolView {
        match self.received() {
            Received::Job(_) => self.after_delivery(w),
            Received::Empty => self,
            Received::Disconnected => self.after_exit(w),
        }
    }

    /// The state after the job that worker `w` was running failed fatally.
    pub open spec fn after_fault(self, w: int) -> PoolView {
        PoolView {
            workers: self.workers.update(w, WorkerState::Crashed(self.submitted[self.slot[w]])),
            status: self.status.update(self.slot[w], JobStatus::LostOn(w)),
            ..self
        }
    }

    /// The state after the sending side was closed.
    pub open spec fn after_close(self) -> PoolView {
        PoolView { accepting: false, ..self }
    }

    /// The state after the next worker in line was joined.
    pub open spec fn after_join(self) -> PoolView {
        PoolView {
            workers: self.workers.update(self.joined as int, WorkerState::Joined),
            joined: self.joined + 1,
            ..self
        }
    }
}

/// The state after every worker that can be joined now has been joined: in
/// construction order, up to the first that has not exited.
pub open spec fn joined_through(v: PoolView) -> PoolView
    decreases v.workers.len() - v.joined,
{
    if v.joined < v.workers.len() && v.workers[v.joined as int] == WorkerState::Exited {
        joined_through(v.after_join())
    } else {
        v
    }
}

/// A pool is consistent when it is made.
pub proof fn lemma_fresh_consistent(size: nat)
    requires
        size > 0,
    ensures
        PoolView::fresh(size).consistent(),
{
    let f = PoolView::fresh(size);
    assert(f.pending =~= f.submitted.skip(0));
    assert forall|w: int| 0 <= w < f.workers.len() implies #[trigger] f.worker_accounted(w) by {
        assert(f.workers[w] == WorkerState::Idle);
    }
}

/// Accepting a job keeps the pool consistent.
pub proof fn lemma_submit_consistent(v: PoolView, job: u64)
    requires
        v.consistent(),
        v.accepting,
    ensures
        v.after_submit(job).consistent(),
{
    let a = v.after_submit(job);
    assert(a.pending =~= a.submitted.skip(a.delivered as int));
    assert forall|k: int| 0 <= k < a.status.len() implies #[trigger] a.job_accounted(k) by {
        if k < v.status.len() {
            assert(v.job_accounted(k));
        }
    }
    assert forall|w: int| 0 <= w < a.workers.len() implies #[trigger] a.worker_accounted(w) by {
        assert(v.worker_accounted(w));
    }
    assert forall|i: int| 0 <= i < a.completed.len() implies #[trigger] a.completion_accounted(
        i,
    ) by {
        assert(v.completion_accounted(i));
    }
}

/// Handing the oldest pending job to an idle worker keeps the pool
/// consistent, and the job handed out is the oldest undelivered one: jobs
/// leave the queue in the order in which they were accepted.
pub proof fn lemma_delivery_consistent(v: PoolView, w: int)
    requires
        v.consistent(),
        0 <= w < v.workers.len(),
        v.workers[w] == WorkerState::Idle,
        v.pending.len() > 0,
    ensures
        v.after_delivery(w).consistent(),
        v.pending[0] == v.submitted[v.delivered as int],
        v.status[v.delivered as int] is Queued,
{
    let a = v.after_delivery(w);
    let d = v.delivered as int;
    assert(v.pending[0] == v.submitted.skip(d)[0]);
    assert(a.pending =~= a.submitted.skip(a.delivered as int));
    assert(v.job_accounted(d));
    assert(v.worker_accounted(w));
    assert forall|k: int| 0 <= k < a.status.len() implies #[trigger] a.job_accounted(k) by {
        assert(v.job_accounted(k));
    }
    assert forall|x: int| 0 <= x < a.workers.len() implies #[trigger] a.worker_accounted(x) by {
        assert(v.worker_accounted(x));
    }
    assert forall|i: int| 0 <= i < a.completed.len() implies #[trigger] a.completion_accounted(
        i,
    ) by {
        assert(v.completion_accounted(i));
    }
}

/// A worker that leaves its loop on a closed, drained queue keeps the pool
/// consistent.
pub proof fn lemma_exit_consistent(v: PoolView, w: int)
    requires
        v.consistent(),
        0 <= w < v.workers.len(),
        v.workers[w] == WorkerState::Idle,
        v.pending.len() == 0,
        !v.accepting,
    ensures
        v.after_exit(w).consistent(),
{
    let a = v.after_exit(w);
    assert forall|k: int| 0 <= k < a.status.len() implies #[trigger] a.job_accounted(k) by {
        assert(v.job_accounted(k));
    }
    assert forall|x: int| 0 <= x < a.workers.len() implies #[trigger] a.worker_accounted(x) by {
        assert(v.worker_accounted(x));
    }
    assert forall|i: int| 0 <= i < a.completed.len() implies #[trigger] a.completion_accounted(
        i,
    ) by {
        assert(v.completion_accounted(i));
    }
}

/// Completing a job keeps the pool consistent, and the job completed was
/// not complete before.
pub proof fn lemma_completion_consistent(v: PoolView, w: int)
    requires
        v.consistent(),
        0 <= w < v.workers.len(),
        v.workers[w] is Running,
    ensures
        v.after_completion(w).consistent(),
        0 <= v.slot[w] < v.submitted.len(),
        v.workers[w] == WorkerState::Running(v.submitted[v.slot[w]]),
        !v.completed.contains(v.slot[w]),
{
    let a = v.after_completion(w);
    let s = v.slot[w];
    assert(v.worker_accounted(w));
    assert(v.job_accounted(s));
    if v.completed.contains(s) {
        let i = choose|i: int| 0 <= i < v.completed.len() && v.completed[i] == s;
        assert(v.completion_accounted(i));
    }
    assert(a.completed[v.completed.len() as int] == s);
    assert forall|k: int| 0 <= k < a.status.len() implies #[trigger] a.job_accounted(k) by {
        assert(v.job_accounted(k));
        if k != s && v.status[k] is Done {
            let i = choose|i: int| 0 <= i < v.completed.len() && v.completed[i] == k;
            assert(a.completed[i] == k);
        }
    }
    assert forall|x: int| 0 <= x < a.workers.len() implies #[trigger] a.worker_accounted(x) by {
        assert(v.worker_accounted(x));
    }
    assert forall|i: int| 0 <= i < a.completed.len() implies #[trigger] a.completion_accounted(
        i,
    ) by {
        if i < v.completed.len() {
            assert(v.completion_accounted(i));
        }
    }
}

/// A job that fails fatally takes its worker with it and keeps the pool
/// consistent: the job is lost, not queued again, and no other job or worker
/// is touched.
pub proof fn lemma_fault_consistent(v: PoolView, w: int)
    requires
        v.consistent(),
        0 <= w < v.workers.len(),
        v.workers[w] is Running,
    ensures
        v.after_fault(w).consistent(),
        0 <= v.slot[w] < v.submitted.len(),
        v.workers[w] == WorkerState::Running(v.submitted[v.slot[w]]),
{
    let a = v.after_fault(w);
    let s = v.slot[w];
    assert(v.worker_accounted(w));
    assert(v.job_accounted(s));
    assert forall|k: int| 0 <= k < a.status.len() implies #[trigger] a.job_accounted(k) by {
        assert(v.job_accounted(k));
    }
    assert forall|x: int| 0 <= x < a.workers.len() implies #[trigger] a.worker_accounted(x) by {
        assert(v.worker_accounted(x));
    }
    assert forall|i: int| 0 <= i < a.completed.len() implies #[trigger] a.completion_accounted(
        i,
    ) by {
        assert(v.completion_accounted(i));
    }
}

/// Closing the sending side keeps the pool consistent.
pub proof fn lemma_close_consistent(v: PoolView)
    requires
        v.consistent(),
    ensures
        v.after_close().consistent(),
{
    let a = v.after_close();
    assert forall|k: int| 0 <= k < a.status.len() implies #[trigger] a.job_accounted(k) by {
        assert(v.job_accounted(k));
    }
    assert forall|x: int| 0 <= x < a.workers.len() implies #[trigger] a.worker_accounted(x) by {
        assert(v.worker_accounted(x));
    }
    assert forall|i: int| 0 <= i < a.completed.len() implies #[trigger] a.completion_accounted(
        i,
    ) by {
        assert(v.completion_accounted(i));
    }
}

/// Joining the next worker in line, once it has exited, keeps the pool
/// consistent.
pub proof fn lemma_join_consistent(v: PoolView)
    requires
        v.consistent(),
        v.joined < v.workers.len(),
        v.workers[v.joined as int] == WorkerState::Exited,
    ensures
        v.after_join().consistent(),
{
    let a = v.after_join();
    assert(v.worker_accounted(v.joined as int));
    assert forall|k: int| 0 <= k < a.status.len() implies #[trigger] a.job_accounted(k) by {
        assert(v.job_accounted(k));
    }
    assert forall|x: int| 0 <= x < a.workers.len() implies #[trigger] a.worker_accounted(x) by {
        assert(v.worker_accounted(x));
    }
    assert forall|i: int| 0 <= i < a.completed.len() implies #[trigger] a.completion_accounted(
        i,
    ) by {
        assert(v.completion_accounted(i));
    }
}

/// Once a pool has stopped, every worker is joined, nothing is queued,
/// running or lost, and every job that was ever accepted has completed
/// exactly once.
pub proof fn lemma_stopped_pool_ran_every_job_once(v: PoolView)
    requires
        v.consistent(),
        v.phase() == Phase::Stopped,
    ensures
        forall|w: int| 0 <= w < v.workers.len() ==> (#[trigger] v.workers[w]) is Joined,
        v.pending.len() == 0,
        v.delivered == v.submitted.len(),
        forall|k: int| 0 <= k < v.submitted.len() ==> (#[trigger] v.status[k]) is Done,
        forall|k: int| 0 <= k < v.submitted.len() ==> #[trigger] v.completed.contains(k),
        forall|i: int|
            0 <= i < v.completed.len() ==> 0 <= #[trigger] v.completed[i] < v.submitted.len(),
        v.completed.no_duplicates(),
{
    assert forall|w: int| 0 <= w < v.workers.len() implies (#[trigger] v.workers[w]) is Joined by {
        assert(v.worker_accounted(w));
    }
    assert(v.worker_accounted(0));
    assert(v.submitted.skip(v.delivered as int).len() == 0);
    assert forall|k: int| 0 <= k < v.submitted.len() implies (#[trigger] v.status[k]) is Done by {
        assert(v.job_accounted(k));
        match v.status[k] {
            JobStatus::RunningOn(w) => {
                assert(v.worker_accounted(w));
            },
            JobStatus::LostOn(w) => {
                assert(v.worker_accounted(w));
            },
            _ => {},
        }
    }
    assert forall|k: int| 0 <= k < v.submitted.len() implies #[trigger] v.completed.contains(
        k,
    ) by {
        assert(v.status[k] is Done);
        assert(v.job_accounted(k));
    }
    assert forall|i: int| 0 <= i < v.completed.len() implies 0 <= #[trigger] v.completed[i]
        < v.submitted.len() by {
        assert(v.completion_accounted(i));
    }
}

/// At every moment each accepted job is in exactly one place, and the queue
/// is in order: the jobs not yet delivered are the queued ones, oldest first,
/// and no job is recorded as complete more than once.
pub proof fn lemma_jobs_are_delivered_in_order(v: PoolView, k: int)
    requires
        v.consistent(),
        0 <= k < v.submitted.len(),
    ensures
        v.status[k] is Queued <==> k >= v.delivered,
        k >= v.delivered ==> v.pending[k - v.delivered] == v.submitted[k],
        v.status[k] is Done <==> v.completed.contains(k),
        v.completed.no_duplicates(),
{
    assert(v.job_accounted(k));
    if v.completed.contains(k) {
        let i = choose|i: int| 0 <= i < v.completed.len() && v.completed[i] == k;
        assert(v.completion_accounted(i));
    }
}

/// A crashed worker is never joined: a pool that has lost a worker does not
/// reach the stopped phase.
pub proof fn lemma_crashed_worker_blocks_stop(v: PoolView, w: int)
    requires
        v.consistent(),
        0 <= w < v.workers.len(),
        v.workers[w] is Crashed,
    ensures
        v.phase() != Phase::Stopped,
{
    assert(v.worker_accounted(w));
}

/// Teardown is final. Once the sending side is closed, no step of a worker
/// and no join opens it again, and the list of accepted jobs stays as it
/// is: only a submission extends it, and a closed pool refuses every one.
pub proof fn lemma_teardown_is_final(v: PoolView, w: int)
    requires
        !v.accepting,
    ensures
        !v.after_delivery(w).accepting && v.after_delivery(w).submitted == v.submitted,
        !v.after_exit(w).accepting && v.after_exit(w).submitted == v.submitted,
        !v.after_completion(w).accepting && v.after_completion(w).submitted == v.submitted,
        !v.after_fault(w).accepting && v.after_fault(w).submitted == v.submitted,
        !v.after_close().accepting && v.after_close().submitted == v.submitted,
        !v.after_join().accepting && v.after_join().submitted == v.submitted,
{
}

/// The size of a pool never changes: every step leaves the number of
/// workers as it was.
pub proof fn lemma_size_is_fixed(v: PoolView, w: int, job: u64)
    requires
        0 <= w < v.workers.len(),
        v.joined < v.workers.len(),
    ensures
        v.after_submit(job).size() == v.size(),
        v.after_delivery(w).size() == v.size(),
        v.after_exit(w).size() == v.size(),
        v.after_completion(w).size() == v.size(),
        v.after_fault(w).size() == v.size(),
        v.after_close().size() == v.size(),
        v.after_join().size() == v.size(),
{
}

/// While a pool shuts down and the worker next in line has not crashed, a
/// step is open: that worker has exited and can be joined, or is idle and
/// can take its turn at the queue, or is running and will report back.
pub proof fn lemma_shutdown_is_never_stuck(v: PoolView)
    requires
        v.consistent(),
        v.phase() == Phase::ShuttingDown,
        !(v.workers[v.joined as int] is Crashed),
    ensures
        v.workers[v.joined as int] == WorkerState::Exited || v.workers[v.joined as int]
            == WorkerState::Idle || v.workers[v.joined as int] is Running,
{
    assert(v.worker_accounted(v.joined as int));
}

/// The steps that a worker in this state has before it, at most, until it
/// is joined and with no further job: finish, leave, be joined.
pub open spec fn rank(state: WorkerState) -> nat {
    match state {
        WorkerState::Running(_) => 3,
        WorkerState::Idle => 2,
        WorkerState::Exited => 1,
        WorkerState::Joined => 0,
        WorkerState::Crashed(_) => 0,
    }
}

/// The sum of the ranks of `workers`.
pub open spec fn ranks(workers: Seq<WorkerState>) -> nat
    decreases workers.len(),
{
    if workers.len() == 0 {
        0
    } else {
        ranks(workers.drop_last()) + rank(workers.last())
    }
}

/// Changing one worker's state changes the sum of the ranks by the
/// difference of the two ranks.
pub proof fn lemma_ranks_update(workers: Seq<WorkerState>, i: int, state: WorkerState)
    requires
        0 <= i < workers.len(),
    ensures
        ranks(workers.update(i, state)) + rank(workers[i]) == ranks(workers) + rank(state),
    decreases workers.len(),
{
    let changed = workers.update(i, state);
    if i == workers.len() - 1 {
        assert(changed.drop_last() =~= workers.drop_last());
    } else {
        assert(changed.drop_last() =~= workers.drop_last().update(i, state));
        lemma_ranks_update(workers.drop_last(), i, state);
    }
}

/// A bound on the steps that the pool can still take without a new
/// submission: two for each queued job, to deliver and to finish it, and
/// for each worker its rank.
pub open spec fn work_left(v: PoolView) -> nat {
    2 * v.pending.len() + ranks(v.workers)
}

/// Every step of a worker and every join uses up work: whatever step is
/// taken, `work_left` falls, and closing the sending side leaves it as it
/// is.
pub proof fn lemma_every_step_uses_up_work(v: PoolView, w: int)
    requires
        v.consistent(),
        0 <= w < v.workers.len(),
    ensures
        v.workers[w] == WorkerState::Idle && v.pending.len() > 0 ==> work_left(
            v.after_delivery(w),
        ) < work_left(v),
        v.workers[w] == WorkerState::Idle ==> work_left(v.after_exit(w)) < work_left(v),
        v.workers[w] is Running ==> work_left(v.after_completion(w)) < work_left(v),
        v.workers[w] is Running ==> work_left(v.after_fault(w)) < work_left(v),
        w == v.joined && v.workers[w] == WorkerState::Exited ==> work_left(v.after_join())
            < work_left(v),
        work_left(v.after_close()) == work_left(v),
{
    lemma_ranks_update(v.workers, w, WorkerState::Running(v.pending[0]));
    lemma_ranks_update(v.workers, w, WorkerState::Exited);
    lemma_ranks_update(v.workers, w, WorkerState::Idle);
    lemma_ranks_update(v.workers, w, WorkerState::Crashed(v.submitted[v.slot[w]]));
    lemma_ranks_update(v.workers, w, WorkerState::Joined);
}

/// Whether the pool goes from `v` to `next` by one step that needs no
/// caller: an idle worker gets a job or finds the queue disconnected, a
/// running job ends, well or badly, or the worker next in line is joined.
pub open spec fn steps_to(v: PoolView, next: PoolView) -> bool {
    ||| exists|w: int|
        0 <= w < v.workers.len() && #[trigger] v.workers[w] == WorkerState::Idle && v.received()
            != Received::Empty && next == v.after_turn(w)
    ||| exists|w: int|
        0 <= w < v.workers.len() && (#[trigger] v.workers[w]) is Running && (next
            == v.after_completion(w) || next == v.after_fault(w))
    ||| v.joined < v.workers.len() && v.workers[v.joined as int] == WorkerState::Exited && next
        == v.after_join()
}

/// A step keeps the pool consistent, uses up work, accepts no job and
/// neither opens nor closes the sending side.
pub proof fn lemma_step(v: PoolView, next: PoolView)
    requires
        v.consistent(),
        steps_to(v, next),
    ensures
        next.consistent(),
        work_left(next) < work_left(v),
        next.accepting == v.accepting,
        next.submitted == v.submitted,
        next.workers.len() == v.workers.len(),
{
    if exists|w: int|
        0 <= w < v.workers.len() && #[trigger] v.workers[w] == WorkerState::Idle && v.received()
            != Received::Empty && next == v.after_turn(w) {
        let w = choose|w: int|
            0 <= w < v.workers.len() && #[trigger] v.workers[w] == WorkerState::Idle
                && v.received() != Received::Empty && next == v.after_turn(w);
        lemma_every_step_uses_up_work(v, w);
        if v.pending.len() > 0 {
            lemma_delivery_consistent(v, w);
        } else {
            lemma_exit_consistent(v, w);
        }
    } else if exists|w: int|
        0 <= w < v.workers.len() && (#[trigger] v.workers[w]) is Running && (next
            == v.after_completion(w) || next == v.after_fault(w)) {
        let w = choose|w: int|
            0 <= w < v.workers.len() && (#[trigger] v.workers[w]) is Running && (next
                == v.after_completion(w) || next == v.after_fault(w));
        lemma_every_step_uses_up_work(v, w);
        lemma_completion_consistent(v, w);
        lemma_fault_consistent(v, w);
    } else {
        lemma_every_step_uses_up_work(v, v.joined as int);
        lemma_join_consistent(v);
    }
}

/// Whether each state of `run` steps to the next.
pub open spec fn is_run(run: Seq<PoolView>) -> bool {
    forall|i: int| 0 <= i < run.len() - 1 ==> steps_to(#[trigger] run[i], run[i + 1])
}

/// Without new submissions a pool runs out of steps: a run from a
/// consistent state has at most `work_left` steps, ends in a consistent
/// state, and accepts no job on its way.
pub proof fn lemma_runs_are_finite(run: Seq<PoolView>)
    requires
        run.len() > 0,
        run[0].consistent(),
        is_run(run),
    ensures
        run.len() <= work_left(run[0]) + 1,
        run.last().consistent(),
        run.last().submitted == run[0].submitted,
        run.last().accepting == run[0].accepting,
        run.last().workers.len() == run[0].workers.len(),
    decreases run.len(),
{
    if run.len() > 1 {
        let rest = run.subrange(1, run.len() as int);
        assert(steps_to(run[0], run[1]));
        lemma_step(run[0], run[1]);
        assert forall|i: int| 0 <= i < rest.len() - 1 implies steps_to(
            #[trigger] rest[i],
            rest[i + 1],
        ) by {
            assert(steps_to(run[i + 1], run[i + 2]));
        }
        lemma_runs_are_finite(rest);
        assert(rest.last() == run.last());
    }
}

/// Where a pool that shuts down has no step left, it has stopped, or the
/// worker next in line to be joined has crashed.
pub proof fn lemma_pool_without_a_step_has_stopped(v: PoolView)
    requires
        v.consistent(),
        !v.accepting,
        forall|next: PoolView| !#[trigger] steps_to(v, next),
    ensures
        v.phase() == Phase::Stopped || (v.joined < v.workers.len()
            && v.workers[v.joined as int] is Crashed),
{
    if v.joined < v.workers.len() {
        let j = v.joined as int;
        assert(v.worker_accounted(j));
        match v.workers[j] {
            WorkerState::Idle => {
                assert(steps_to(v, v.after_turn(j)));
            },
            WorkerState::Running(_) => {
                assert(steps_to(v, v.after_completion(j)));
            },
            WorkerState::Exited => {
                assert(steps_to(v, v.after_join()));
            },
            _ => {},
        }
    }
}

/// Teardown ends, and ends well unless a worker crashes: a run of a pool
/// that accepts no more jobs is finite, and where it ends for want of a
/// step with no worker crashed, the pool has stopped and every job that was
/// ever accepted has completed exactly once.
pub proof fn lemma_teardown_finishes_every_job(run: Seq<PoolView>)
    requires
        run.len() > 0,
        run[0].consistent(),
        !run[0].accepting,
        is_run(run),
        forall|next: PoolView| !#[trigger] steps_to(run.last(), next),
        forall|w: int|
            0 <= w < run.last().workers.len() ==> !((#[trigger] run.last().workers[w]) is Crashed),
    ensures
        run.len() <= work_left(run[0]) + 1,
        run.last().phase() == Phase::Stopped,
        forall|k: int|
            0 <= k < run[0].submitted.len() ==> #[trigger] run.last().completed.contains(k),
        run.last().completed.no_duplicates(),
{
    lemma_runs_are_finite(run);
    lemma_pool_without_a_step_has_stopped(run.last());
    lemma_stopped_pool_ran_every_job_once(run.last());
}

/// While a job is unfinished the pool cannot stop: as long as some accepted
/// job is queued or running, a worker is still to be joined or jobs are
/// still being accepted.
pub proof fn lemma_unfinished_job_keeps_pool_alive(v: PoolView, k: int)
    requires
        v.consistent(),
        0 <= k < v.submitted.len(),
        !(v.status[k] is Done),
    ensures
        v.phase() != Phase::Stopped,
{
    if v.phase() == Phase::Stopped {
        lemma_stopped_pool_ran_every_job_once(v);
    }
}

} // verus!
