use synapse::publisher::{update_result, FlushOutcome, Publisher, SendOutcome};

#[test]
fn batches_are_numbered_in_the_order_they_are_sent() {
    let mut p = Publisher::publish(8);
    assert_eq!(p.send(10), SendOutcome::Accepted { sequence: 0 });
    assert_eq!(p.send(20), SendOutcome::Accepted { sequence: 1 });
    assert_eq!(p.send(30), SendOutcome::Accepted { sequence: 2 });
    assert_eq!(p.rows(), 60);
    assert_eq!(p.accepted(), 3);
    assert_eq!(p.flush(), FlushOutcome::Pending { outstanding: 3 });
    p.commit(3);
    assert_eq!(p.flush(), FlushOutcome::Done);
    assert_eq!(update_result(p.rows()), 60);
}

#[test]
fn a_full_buffer_makes_the_sender_wait() {
    let mut p = Publisher::publish(2);
    assert_eq!(p.send(1), SendOutcome::Accepted { sequence: 0 });
    assert_eq!(p.send(1), SendOutcome::Accepted { sequence: 1 });
    assert_eq!(p.send(1), SendOutcome::Full);
    assert_eq!(p.send(1), SendOutcome::Full);
    assert_eq!(p.rows(), 2);
    p.commit(1);
    assert_eq!(p.send(1), SendOutcome::Accepted { sequence: 2 });
    assert_eq!(p.send(1), SendOutcome::Full);
    assert_eq!(p.flush(), FlushOutcome::Pending { outstanding: 2 });
    p.commit(5);
    assert_eq!(p.flush(), FlushOutcome::Done);
    assert_eq!(p.send(1), SendOutcome::Accepted { sequence: 3 });
}

#[test]
fn a_buffer_of_no_batches_takes_one() {
    let mut p = Publisher::publish(0);
    assert_eq!(p.send(5), SendOutcome::Accepted { sequence: 0 });
    assert_eq!(p.send(5), SendOutcome::Full);
}

#[test]
fn the_first_failure_stays() {
    let mut p = Publisher::publish(4);
    assert_eq!(p.send(10), SendOutcome::Accepted { sequence: 0 });
    assert!(p.failure().is_none());
    p.fail("disk full".into());
    p.fail("later".into());
    assert_eq!(p.failure().unwrap(), "disk full");
    assert_eq!(p.send(10), SendOutcome::Failed);
    assert_eq!(p.flush(), FlushOutcome::Failed);
    p.commit(1);
    assert_eq!(p.flush(), FlushOutcome::Failed);
    assert_eq!(p.rows(), 10);
}

#[test]
fn counters_that_run_over_fail_the_publisher() {
    let mut p = Publisher::publish(4);
    assert_eq!(p.send(u64::MAX), SendOutcome::Accepted { sequence: 0 });
    assert_eq!(p.send(1), SendOutcome::Failed);
    assert_eq!(p.failure().unwrap(), "publisher counters exhausted");
    assert_eq!(p.rows(), u64::MAX);
}

#[test]
fn update_result_is_the_count() {
    assert_eq!(update_result(0), 0);
    assert_eq!(update_result(60), 60);
    assert_eq!(update_result(i64::MAX as u64), i64::MAX);
    assert_eq!(update_result(i64::MAX as u64 + 1), i64::MAX);
    assert_eq!(update_result(u64::MAX), i64::MAX);
}
