use static_web_server::model::Phase;
use static_web_server::pool::JoinStep;
use static_web_server::queue::{JobQueue, Received, SubmitError};
use static_web_server::worker::{Worker, WorkerAction, WorkerState};
use static_web_server::ThreadPool;

#[test]
fn new_pool_has_all_workers_idle() {
    let sizes: Vec<usize> = vec![1, 2, 4, 17];
    for size in sizes {
        let pool = ThreadPool::new(size);
        assert_eq!(pool.size(), size);
        assert_eq!(pool.pending(), 0);
        assert_eq!(pool.phase(), Phase::Running);
        for id in 0..size {
            assert_eq!(pool.worker_state(id), WorkerState::Idle);
        }
    }
}

#[test]
fn four_jobs_on_two_workers_each_run_once() {
    let mut pool = ThreadPool::new(2);
    let mut log: Vec<u64> = Vec::new();
    for job in 0..4u64 {
        assert_eq!(pool.execute(job), Ok(()));
    }
    assert_eq!(pool.pending(), 4);
    assert_eq!(pool.worker_receive(0), Received::Job(0));
    assert_eq!(pool.worker_receive(1), Received::Job(1));
    log.push(pool.worker_finish(1));
    assert_eq!(pool.worker_receive(1), Received::Job(2));
    log.push(pool.worker_finish(0));
    assert_eq!(pool.worker_receive(0), Received::Job(3));
    log.push(pool.worker_finish(0));
    log.push(pool.worker_finish(1));
    assert_eq!(log, vec![1, 0, 3, 2]);
    let mut sorted = log.clone();
    sorted.sort();
    assert_eq!(sorted, vec![0, 1, 2, 3]);
    assert_eq!(pool.pending(), 0);
    assert_eq!(pool.worker_receive(0), Received::Empty);

    pool.shutdown();
    assert_eq!(pool.phase(), Phase::ShuttingDown);
    assert_eq!(pool.worker_receive(0), Received::Disconnected);
    assert_eq!(pool.worker_receive(1), Received::Disconnected);
    assert_eq!(pool.join_next(), JoinStep::Joined(0));
    assert_eq!(pool.join_next(), JoinStep::Joined(1));
    assert_eq!(pool.join_next(), JoinStep::Finished);
    assert_eq!(pool.phase(), Phase::Stopped);
    assert_eq!(pool.worker_state(0), WorkerState::Joined);
    assert_eq!(pool.worker_state(1), WorkerState::Joined);
}

#[test]
fn single_worker_serializes_jobs() {
    let mut pool = ThreadPool::new(1);
    assert_eq!(pool.execute(10), Ok(()));
    assert_eq!(pool.execute(11), Ok(()));
    assert_eq!(pool.worker_receive(0), Received::Job(10));
    assert_eq!(pool.worker_state(0), WorkerState::Running(10));
    // the second job waits for as long as the first one runs
    assert_eq!(pool.pending(), 1);
    assert_eq!(pool.worker_finish(0), 10);
    assert_eq!(pool.worker_state(0), WorkerState::Idle);
    assert_eq!(pool.worker_receive(0), Received::Job(11));
    assert_eq!(pool.pending(), 0);
}

#[test]
fn submit_after_shutdown_is_refused() {
    let mut pool = ThreadPool::new(2);
    pool.shutdown();
    assert_eq!(pool.execute(7), Err(SubmitError::Closed));
    assert_eq!(pool.pending(), 0);
    assert_eq!(pool.worker_receive(0), Received::Disconnected);
    assert_eq!(pool.worker_receive(1), Received::Disconnected);
    assert_eq!(pool.worker_state(0), WorkerState::Exited);
}

#[test]
fn shutdown_drains_what_was_queued() {
    let mut pool = ThreadPool::new(1);
    assert_eq!(pool.execute(1), Ok(()));
    assert_eq!(pool.execute(2), Ok(()));
    pool.shutdown();
    pool.shutdown();
    assert_eq!(pool.execute(3), Err(SubmitError::Closed));
    assert_eq!(pool.pending(), 2);
    assert_eq!(pool.worker_receive(0), Received::Job(1));
    assert_eq!(pool.worker_finish(0), 1);
    assert_eq!(pool.worker_receive(0), Received::Job(2));
    assert_eq!(pool.worker_finish(0), 2);
    assert_eq!(pool.worker_receive(0), Received::Disconnected);
    assert_eq!(pool.join_next(), JoinStep::Joined(0));
    assert_eq!(pool.phase(), Phase::Stopped);
}

#[test]
fn join_waits_for_a_running_worker() {
    let mut pool = ThreadPool::new(2);
    assert_eq!(pool.execute(5), Ok(()));
    assert_eq!(pool.worker_receive(0), Received::Job(5));
    pool.shutdown();
    assert_eq!(pool.worker_receive(1), Received::Disconnected);
    // worker 1 has exited, but worker 0 is first in line and still runs
    assert_eq!(pool.join_next(), JoinStep::Waiting(0));
    assert_eq!(pool.phase(), Phase::ShuttingDown);
    assert_eq!(pool.worker_finish(0), 5);
    assert_eq!(pool.join_next(), JoinStep::Waiting(0));
    assert_eq!(pool.worker_receive(0), Received::Disconnected);
    assert_eq!(pool.join_next(), JoinStep::Joined(0));
    assert_eq!(pool.join_next(), JoinStep::Joined(1));
    assert_eq!(pool.join_next(), JoinStep::Finished);
    assert_eq!(pool.phase(), Phase::Stopped);
}

#[test]
fn join_on_a_running_pool_only_waits() {
    let mut pool = ThreadPool::new(3);
    assert_eq!(pool.join_next(), JoinStep::Waiting(0));
    assert_eq!(pool.phase(), Phase::Running);
    assert_eq!(pool.execute(1), Ok(()));
}

#[test]
fn queue_is_first_in_first_out() {
    let mut queue = JobQueue::new();
    assert!(queue.is_open());
    assert_eq!(queue.receive(), Received::Empty);
    assert_eq!(queue.send(3), Ok(()));
    assert_eq!(queue.send(1), Ok(()));
    assert_eq!(queue.send(2), Ok(()));
    assert_eq!(queue.len(), 3);
    assert_eq!(queue.receive(), Received::Job(3));
    queue.close();
    assert!(!queue.is_open());
    assert_eq!(queue.send(9), Err(SubmitError::Closed));
    assert_eq!(queue.len(), 2);
    assert_eq!(queue.receive(), Received::Job(1));
    assert_eq!(queue.receive(), Received::Job(2));
    assert_eq!(queue.receive(), Received::Disconnected);
    assert_eq!(queue.receive(), Received::Disconnected);
}

#[test]
fn worker_loop_decisions() {
    let mut worker = Worker::new(3);
    assert_eq!(worker.id, 3);
    assert_eq!(worker.state, WorkerState::Idle);
    assert_eq!(worker.on_receive(Received::Empty), WorkerAction::Wait);
    assert_eq!(worker.state, WorkerState::Idle);
    assert_eq!(worker.on_receive(Received::Job(8)), WorkerAction::Run(8));
    assert_eq!(worker.state, WorkerState::Running(8));
    assert_eq!(worker.running_job(), 8);
    assert_eq!(worker.on_finished(), 8);
    assert_eq!(worker.state, WorkerState::Idle);
    assert_eq!(worker.on_receive(Received::Disconnected), WorkerAction::Exit);
    assert_eq!(worker.state, WorkerState::Exited);
    assert_eq!(worker.id, 3);
}

#[test]
fn worker_fault_is_final() {
    let mut worker = Worker::new(0);
    assert_eq!(worker.on_receive(Received::Job(4)), WorkerAction::Run(4));
    assert_eq!(worker.on_fault(), 4);
    assert_eq!(worker.state, WorkerState::Crashed(4));
    assert_eq!(worker.id, 0);
}

#[test]
fn crashed_worker_is_lost_and_the_rest_go_on() {
    let mut pool = ThreadPool::new(2);
    for job in 0..3u64 {
        assert_eq!(pool.execute(job), Ok(()));
    }
    assert_eq!(pool.worker_receive(0), Received::Job(0));
    assert_eq!(pool.worker_fault(0), 0);
    assert_eq!(pool.worker_state(0), WorkerState::Crashed(0));
    assert_eq!(pool.size(), 2);
    // the lost job is not queued again
    assert_eq!(pool.pending(), 2);
    assert_eq!(pool.worker_receive(1), Received::Job(1));
    assert_eq!(pool.worker_finish(1), 1);
    assert_eq!(pool.worker_receive(1), Received::Job(2));
    assert_eq!(pool.worker_finish(1), 2);
    pool.shutdown();
    assert_eq!(pool.worker_receive(1), Received::Disconnected);
    // the crashed worker is first in line and cannot be joined
    assert_eq!(pool.join_next(), JoinStep::Failed(0));
    assert_eq!(pool.join_next(), JoinStep::Failed(0));
    assert_eq!(pool.phase(), Phase::ShuttingDown);
    assert_eq!(pool.worker_state(1), WorkerState::Exited);
}

#[test]
fn many_jobs_leave_in_the_order_they_came() {
    let mut pool = ThreadPool::new(3);
    let jobs: Vec<u64> = vec![9, 9, 2, 7, 0, 5, 5, 1];
    for job in jobs.iter() {
        assert_eq!(pool.execute(*job), Ok(()));
    }
    let mut delivered: Vec<u64> = Vec::new();
    let mut turn: usize = 0;
    while pool.pending() > 0 {
        let id: usize = turn % 3;
        if let WorkerState::Running(_) = pool.worker_state(id) {
            pool.worker_finish(id);
        }
        if let Received::Job(job) = pool.worker_receive(id) {
            delivered.push(job);
        }
        turn += 1;
    }
    assert_eq!(delivered, jobs);
}

#[test]
fn teardown_joins_as_far_as_it_can() {
    let mut pool = ThreadPool::new(3);
    assert_eq!(pool.execute(1), Ok(()));
    assert_eq!(pool.worker_receive(1), Received::Job(1));
    assert_eq!(pool.teardown(), JoinStep::Waiting(0));
    assert_eq!(pool.execute(2), Err(SubmitError::Closed));
    assert_eq!(pool.worker_receive(0), Received::Disconnected);
    assert_eq!(pool.worker_receive(2), Received::Disconnected);
    // worker 0 is joined; worker 1 still runs its job and holds up worker 2
    assert_eq!(pool.teardown(), JoinStep::Waiting(1));
    assert_eq!(pool.worker_state(0), WorkerState::Joined);
    assert_eq!(pool.worker_state(2), WorkerState::Exited);
    assert_eq!(pool.worker_finish(1), 1);
    assert_eq!(pool.worker_receive(1), Received::Disconnected);
    assert_eq!(pool.teardown(), JoinStep::Finished);
    assert_eq!(pool.phase(), Phase::Stopped);
    assert_eq!(pool.teardown(), JoinStep::Finished);
}

#[test]
fn teardown_of_an_idle_pool_waits_for_the_first_worker() {
    let mut pool = ThreadPool::new(2);
    assert_eq!(pool.teardown(), JoinStep::Waiting(0));
    assert_eq!(pool.phase(), Phase::ShuttingDown);
}

#[test]
fn drain_takes_no_more_steps_than_the_work_left() {
    let size: usize = 3;
    let jobs: usize = 7;
    let mut pool = ThreadPool::new(size);
    for job in 0..jobs {
        assert_eq!(pool.execute(job as u64), Ok(()));
    }
    pool.shutdown();
    // two steps for each queued job, and for each idle worker its exit and its join
    let bound: usize = 2 * jobs + 2 * size;
    let mut steps: usize = 0;
    let mut done: Vec<u64> = Vec::new();
    while pool.phase() != Phase::Stopped {
        let mut moved = false;
        for id in 0..size {
            match pool.worker_state(id) {
                WorkerState::Idle => {
                    assert!(pool.worker_receive(id) != Received::Empty);
                    steps += 1;
                    moved = true;
                }
                WorkerState::Running(_) => {
                    done.push(pool.worker_finish(id));
                    steps += 1;
                    moved = true;
                }
                _ => {}
            }
        }
        if let JoinStep::Joined(_) = pool.join_next() {
            steps += 1;
            moved = true;
        }
        assert!(moved);
        assert!(steps <= bound);
    }
    assert_eq!(steps, bound);
    done.sort();
    assert_eq!(done, vec![0, 1, 2, 3, 4, 5, 6]);
}
