use tracer::ws::heartbeat::Heartbeat;

#[test]
fn due_only_after_timeout_exceeded() {
    // timeout of two whole seconds, baselined at zero milliseconds
    let mut heartbeat = Heartbeat::new(2, 0);
    assert!(!heartbeat.poll(0));
    assert!(!heartbeat.poll(2000));
    // exactly two elapsed seconds is not over the timeout yet
    assert!(!heartbeat.poll(2999));
    // three whole elapsed seconds exceed a two second timeout
    assert!(heartbeat.poll(3001));
}

#[test]
fn at_most_one_per_window() {
    let mut heartbeat = Heartbeat::new(2, 0);
    assert!(heartbeat.poll(3001));
    // the baseline was reset: within the next window nothing is due
    assert!(!heartbeat.poll(3002));
    assert!(!heartbeat.poll(5001));
    // and once the new window is exceeded, the next heartbeat is due
    assert!(heartbeat.poll(6002));
}

#[test]
fn closed_never_emits_again() {
    let mut heartbeat = Heartbeat::new(2, 0);
    assert!(heartbeat.poll(3001));
    heartbeat.close();
    assert!(!heartbeat.poll(10000));
    assert!(!heartbeat.poll(1000000));
}

#[test]
fn clock_running_backwards_is_not_due() {
    let mut heartbeat = Heartbeat::new(2, 5000);
    assert!(!heartbeat.poll(0));
}
