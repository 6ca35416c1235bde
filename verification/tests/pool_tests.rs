use tinyserve::{parse_request, render_request_log, Message, ThreadPool, WorkerState};

#[test]
fn pool_runs_each_job_exactly_once() {
    let mut pool = ThreadPool::new(4, false);
    for expected in 0..6 {
        let job = pool.execute();
        assert_eq!(job, expected);
    }
    pool.shutdown();
    assert_eq!(pool.executed, vec![0, 1, 2, 3, 4, 5]);
    assert_eq!(pool.queue.len(), 0);
    assert_eq!(pool.workers.len(), 4);
    for w in &pool.workers {
        assert!(matches!(w.state, WorkerState::Stopped));
    }
}

#[test]
fn pool_of_one_worker_drains() {
    let mut pool = ThreadPool::new(1, true);
    let job = pool.execute();
    assert_eq!(job, 0);
    pool.shutdown();
    assert_eq!(pool.executed, vec![0]);
    assert!(matches!(pool.workers[0].state, WorkerState::Stopped));
}

#[test]
fn pool_shutdown_without_jobs() {
    let mut pool = ThreadPool::new(64, false);
    pool.shutdown();
    assert!(pool.executed.is_empty());
    assert_eq!(pool.queue.len(), 0);
    for w in &pool.workers {
        assert!(matches!(w.state, WorkerState::Stopped));
    }
}

#[test]
fn pool_delivery_steps() {
    let mut pool = ThreadPool::new(2, false);
    let job = pool.execute();
    assert_eq!(job, 0);
    assert!(matches!(pool.queue[0], Message::NewJob(0)));

    let ran = pool.deliver_next(1);
    assert_eq!(ran, Some(0));
    assert_eq!(pool.executed, vec![0]);
    assert!(matches!(pool.workers[1].state, WorkerState::Running));

    pool.begin_shutdown();
    assert_eq!(pool.queue.len(), 2);

    let ran = pool.deliver_next(0);
    assert_eq!(ran, None);
    assert!(matches!(pool.workers[0].state, WorkerState::Stopped));
    assert!(matches!(pool.workers[1].state, WorkerState::Running));

    let ran = pool.deliver_next(1);
    assert_eq!(ran, None);
    assert!(matches!(pool.workers[1].state, WorkerState::Stopped));
    assert_eq!(pool.queue.len(), 0);
}

#[test]
fn workers_stay_until_terminate() {
    let mut pool = ThreadPool::new(3, false);
    for _ in 0..5 {
        pool.execute();
    }
    // Deliver all five jobs to the same worker: the others idle, none stops.
    for _ in 0..5 {
        pool.deliver_next(2);
    }
    assert_eq!(pool.executed, vec![0, 1, 2, 3, 4]);
    for w in &pool.workers {
        assert!(matches!(w.state, WorkerState::Running));
    }
    pool.shutdown();
    for w in &pool.workers {
        assert!(matches!(w.state, WorkerState::Stopped));
    }
}

#[test]
fn log_line_quotes_request() {
    let mut line = String::from("GET /a.html HTTP/1.1");
    let req = parse_request(&mut line).expect("three tokens parse");
    let log = render_request_log(&req);
    assert!(log.starts_with('['));
    assert!(log.ends_with("] \"GET /a.html HTTP/1.1\""));
}
