use tracer::cmd::event::CommandEvent;
use tracer::cmd::supervisor::Supervisor;

#[test]
fn echo_hi_yields_stdout_then_exit() {
    // the observed event stream of running `echo hi`: one stdout line,
    // then the exit notification, in that order and nothing else
    let mut supervisor = Supervisor::new(7, 2);
    let mut observed: Vec<CommandEvent> = Vec::new();

    observed.push(supervisor.stdout_line("hi".to_string()));
    supervisor.reader_done();
    supervisor.reader_done();
    observed.push(supervisor.try_finish(Some(0), None).expect("both permits are back"));

    assert_eq!(observed.len(), 2);
    assert!(matches!(&observed[0], CommandEvent::Stdout(line) if line == "hi"));
    assert!(matches!(
        &observed[1],
        CommandEvent::Exited { code: Some(0), signal: None }
    ));
}

#[test]
fn exit_waits_for_both_readers() {
    let mut supervisor = Supervisor::new(7, 2);
    // the operating system already reported termination, but a reader
    // still holds its permit: nothing is published yet
    assert!(supervisor.try_finish(Some(0), None).is_none());
    supervisor.reader_done();
    assert!(supervisor.try_finish(Some(0), None).is_none());
    supervisor.reader_done();
    assert!(supervisor.try_finish(Some(0), None).is_some());
}

#[test]
fn kill_after_exit_is_silent() {
    let mut supervisor = Supervisor::new(7, 2);
    supervisor.reader_done();
    supervisor.reader_done();
    let exited = supervisor.try_finish(Some(0), None);
    assert!(matches!(exited, Some(CommandEvent::Exited { .. })));
    // killing a child that already reported its exit: no error, and no
    // second exit notification can ever be published
    assert!(supervisor.kill().is_ok());
    assert!(supervisor.try_finish(Some(0), None).is_none());
    assert!(supervisor.try_finish_error("late".to_string()).is_none());
}

#[test]
fn exit_is_published_once() {
    let mut supervisor = Supervisor::new(3, 2);
    supervisor.reader_done();
    supervisor.reader_done();
    assert!(supervisor.try_finish(Some(1), None).is_some());
    assert!(supervisor.try_finish(Some(1), None).is_none());
}

#[test]
fn read_failure_is_an_error_event_only() {
    let mut supervisor = Supervisor::new(3, 2);
    let event = supervisor.read_error("stream did not contain valid UTF-8".to_string());
    assert!(matches!(event, CommandEvent::Error(m) if m == "stream did not contain valid UTF-8"));
    // the sibling stream keeps functioning
    let event = supervisor.stderr_line("still alive".to_string());
    assert!(matches!(event, CommandEvent::Stderr(line) if line == "still alive"));
}

#[test]
fn failed_wait_publishes_error_not_exit() {
    let mut supervisor = Supervisor::new(3, 2);
    supervisor.reader_done();
    supervisor.reader_done();
    let event = supervisor.try_finish_error("wait failed".to_string());
    assert!(matches!(event, Some(CommandEvent::Error(m)) if m == "wait failed"));
    assert!(supervisor.try_finish(Some(0), None).is_none());
}

#[test]
fn pid_is_stable() {
    let mut supervisor = Supervisor::new(4242, 2);
    assert_eq!(supervisor.pid(), 4242);
    supervisor.stdout_line("x".to_string());
    supervisor.reader_done();
    supervisor.kill().unwrap();
    assert_eq!(supervisor.pid(), 4242);
}
