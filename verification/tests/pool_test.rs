use webserver::pool::ControlMessage;
use webserver::pool::Pool;
use webserver::pool::WorkerAction;

#[test]
fn pool_runs_every_job_exactly_once() {
    let mut pool = Pool::new(3);
    for job in 0..7u64 {
        pool.execute(job);
    }
    pool.shutdown();

    let mut ran: Vec<u64> = Vec::new();
    let mut exits: usize = 0;
    while let Some(message) = pool.claim() {
        match Pool::worker_step(message) {
            WorkerAction::Run(job) => ran.push(job),
            WorkerAction::Exit => exits += 1,
        }
    }
    assert_eq!(ran, vec![0, 1, 2, 3, 4, 5, 6]);
    assert_eq!(exits, 3);
    assert!(pool.claim().is_none());
}

#[test]
fn more_workers_than_jobs_still_runs_each_once() {
    let mut pool = Pool::new(5);
    pool.execute(41);
    pool.execute(42);
    pool.shutdown();

    let mut ran: Vec<u64> = Vec::new();
    let mut exits: usize = 0;
    while let Some(message) = pool.claim() {
        match Pool::worker_step(message) {
            WorkerAction::Run(job) => ran.push(job),
            WorkerAction::Exit => exits += 1,
        }
    }
    assert_eq!(ran, vec![41, 42]);
    assert_eq!(exits, 5);
}

#[test]
fn workers_are_numbered_in_order() {
    let pool = Pool::new(4);
    assert_eq!(pool.workers.len(), 4);
    for (index, worker) in pool.workers.iter().enumerate() {
        assert_eq!(worker.id, index);
    }
    assert!(pool.queue.is_empty());
}

#[test]
fn messages_leave_in_arrival_order() {
    let mut pool = Pool::new(1);
    pool.execute(9);
    pool.shutdown();
    assert_eq!(pool.claim(), Some(ControlMessage::NewJob(9)));
    assert_eq!(pool.claim(), Some(ControlMessage::Terminate));
    assert_eq!(pool.claim(), None);
}
