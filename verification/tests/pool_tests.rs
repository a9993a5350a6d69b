use poke_escape_server::error::ErrorKind;
use poke_escape_server::threads::{Message, ThreadPool};

#[test]
fn pool_of_zero_workers_is_refused() {
    let r = ThreadPool::new(0);
    match r {
        Ok(_) => panic!("a pool of zero workers must not be created"),
        Err(e) => assert_eq!(e.kind(), ErrorKind::PoolToSmall),
    }
}

#[test]
fn pool_of_four_workers_is_created() {
    let pool = ThreadPool::new(4).unwrap();
    assert_eq!(pool.get_threads(), 4);
    assert!(!pool.is_verbose());
}

#[test]
fn verbose_mode_round_trip() {
    let mut pool = ThreadPool::new(4).unwrap();
    pool.verbose();
    assert!(pool.is_verbose());
    pool.set_verbose_mode(false);
    assert!(!pool.is_verbose());
    pool.set_verbose_mode(true);
    assert!(pool.is_verbose());
}

#[test]
fn jobs_are_claimed_in_submission_order() {
    let mut pool = ThreadPool::new(2).unwrap();
    pool.execute(10).unwrap();
    pool.execute(20).unwrap();
    pool.execute(30).unwrap();
    assert_eq!(pool.claim(), Some(Message::NewJob(10)));
    assert_eq!(pool.claim(), Some(Message::NewJob(20)));
    assert_eq!(pool.claim(), Some(Message::NewJob(30)));
    assert_eq!(pool.claim(), None);
}

#[test]
fn execute_after_shutdown_is_a_pool_send_error() {
    let mut pool = ThreadPool::new(3).unwrap();
    pool.execute(1).unwrap();
    pool.shutdown();
    let r = pool.execute(2);
    match r {
        Ok(_) => panic!("a torn-down queue must not accept jobs"),
        Err(e) => assert_eq!(e.kind(), ErrorKind::PoolSendError(true)),
    }
}

#[test]
fn shutdown_appends_one_terminate_per_worker_after_the_jobs() {
    let mut pool = ThreadPool::new(2).unwrap();
    pool.execute(7).unwrap();
    pool.execute(8).unwrap();
    pool.shutdown();
    // the pending jobs come out first, then exactly one terminate per worker
    assert_eq!(pool.claim(), Some(Message::NewJob(7)));
    assert_eq!(pool.claim(), Some(Message::NewJob(8)));
    assert_eq!(pool.claim(), Some(Message::Terminate));
    assert_eq!(pool.claim(), Some(Message::Terminate));
    assert_eq!(pool.claim(), None);
}

#[test]
fn five_jobs_on_two_workers_all_run_exactly_once() {
    let mut pool = ThreadPool::new(2).unwrap();
    for j in 0..5u64 {
        pool.execute(j).unwrap();
    }
    assert_eq!(pool.get_threads(), 2);
    pool.shutdown();
    let ran = pool.drain();
    assert_eq!(ran, vec![0, 1, 2, 3, 4]);
    assert_eq!(pool.get_threads(), 2);
}

#[test]
fn drain_of_an_empty_pool_runs_nothing() {
    let mut pool = ThreadPool::new(1).unwrap();
    let ran = pool.drain();
    assert!(ran.is_empty());
}
