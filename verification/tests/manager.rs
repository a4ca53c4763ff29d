use tracer::cmd::event::CommandEvent;
use tracer::config::Environment;
use tracer::error::{ApplicationError, ApplicationErrorKind};
use tracer::manager::{Action, Manager, SessionEvent, SessionState};
use tracer::ws::packet::Packet;

fn test_environment() -> Environment {
    Environment::new(
        "localhost:8080".to_string(),
        false,
        "a super long token".to_string(),
        "DEBUG".to_string(),
    )
}

#[test]
fn handshake_sends_the_token() {
    let mut manager = Manager::new(test_environment());
    assert_eq!(manager.state(), SessionState::Connecting);
    let actions = manager.step(SessionEvent::Opened);
    assert_eq!(manager.state(), SessionState::Authenticating);
    assert_eq!(actions.len(), 1);
    assert!(matches!(
        &actions[0],
        Action::Send(Packet::Authenticate(token)) if token == "a super long token"
    ));
}

#[test]
fn auth_failure_closes_without_command_launched() {
    let mut manager = Manager::new(test_environment());
    manager.step(SessionEvent::Opened);
    let actions = manager.step(SessionEvent::Inbound(Packet::AuthenticationFailed(
        "bad token".to_string(),
    )));
    // straight to the terminal state, the reason surfaced, and no
    // CommandLaunched among the actions
    assert_eq!(manager.state(), SessionState::Closed);
    assert_eq!(actions.len(), 2);
    assert!(matches!(
        &actions[0],
        Action::Fail(error) if error.message() == "bad token"
            && matches!(error.kind(), ApplicationErrorKind::Transport)
    ));
    assert!(matches!(&actions[1], Action::Close));
    for action in &actions {
        assert!(!matches!(action, Action::Send(Packet::CommandLaunched)));
    }
    // and the terminal state absorbs everything that follows
    let later = manager.step(SessionEvent::Inbound(Packet::AuthenticationSuccessful));
    assert!(later.is_empty());
    assert_eq!(manager.state(), SessionState::Closed);
}

#[test]
fn full_session_happy_path() {
    let mut manager = Manager::new(test_environment());

    manager.step(SessionEvent::Opened);
    let actions = manager.step(SessionEvent::Inbound(Packet::AuthenticationSuccessful));
    assert_eq!(manager.state(), SessionState::Authenticated);
    assert_eq!(actions.len(), 1);
    assert!(matches!(&actions[0], Action::Spawn));

    let actions = manager.step(SessionEvent::Spawned(4242));
    assert_eq!(manager.state(), SessionState::Running);
    assert_eq!(actions.len(), 1);
    assert!(matches!(&actions[0], Action::Send(Packet::CommandLaunched)));

    let actions = manager.step(SessionEvent::Process(CommandEvent::Stdout("hi".to_string())));
    assert_eq!(actions.len(), 1);
    assert!(matches!(
        &actions[0],
        Action::Send(Packet::CommandOutput { stream, message })
            if stream == "stdout" && message == "hi"
    ));

    let actions = manager.step(SessionEvent::Process(CommandEvent::Stderr("oops".to_string())));
    assert!(matches!(
        &actions[0],
        Action::Send(Packet::CommandOutput { stream, message })
            if stream == "stderr" && message == "oops"
    ));

    let actions = manager.step(SessionEvent::Process(CommandEvent::Exited {
        code: Some(3),
        signal: None,
    }));
    assert_eq!(manager.state(), SessionState::Closed);
    assert_eq!(actions.len(), 2);
    assert!(matches!(&actions[0], Action::Send(Packet::CommandTerminated(3))));
    assert!(matches!(&actions[1], Action::Close));
}

#[test]
fn terminate_request_kills_and_drains() {
    let mut manager = Manager::new(test_environment());
    manager.step(SessionEvent::Opened);
    manager.step(SessionEvent::Inbound(Packet::AuthenticationSuccessful));
    manager.step(SessionEvent::Spawned(1));

    let actions = manager.step(SessionEvent::Inbound(Packet::CommandTerminate));
    assert_eq!(manager.state(), SessionState::Draining);
    assert_eq!(actions.len(), 1);
    assert!(matches!(&actions[0], Action::Kill));

    // output still drains, then the exit notification closes the session
    let actions = manager.step(SessionEvent::Process(CommandEvent::Stdout("late".to_string())));
    assert_eq!(manager.state(), SessionState::Draining);
    assert!(matches!(&actions[0], Action::Send(Packet::CommandOutput { .. })));

    let actions = manager.step(SessionEvent::Process(CommandEvent::Exited {
        code: None,
        signal: Some(9),
    }));
    assert_eq!(manager.state(), SessionState::Closed);
    assert!(matches!(&actions[0], Action::Send(Packet::CommandTerminated(0))));
}

#[test]
fn ping_answered_in_every_state() {
    let mut manager = Manager::new(test_environment());
    let actions = manager.step(SessionEvent::Inbound(Packet::Ping));
    assert!(matches!(&actions[0], Action::Send(Packet::Ping)));
    assert_eq!(manager.state(), SessionState::Connecting);

    manager.step(SessionEvent::Opened);
    let actions = manager.step(SessionEvent::Inbound(Packet::Ping));
    assert!(matches!(&actions[0], Action::Send(Packet::Ping)));
    assert_eq!(manager.state(), SessionState::Authenticating);

    let actions = manager.step(SessionEvent::Inbound(Packet::Pong));
    assert!(actions.is_empty());
    assert_eq!(manager.state(), SessionState::Authenticating);
}

#[test]
fn unexpected_packets_are_ignored() {
    let mut manager = Manager::new(test_environment());
    manager.step(SessionEvent::Opened);
    let actions = manager.step(SessionEvent::Inbound(Packet::CommandLaunched));
    assert!(actions.is_empty());
    assert_eq!(manager.state(), SessionState::Authenticating);
    let actions = manager.step(SessionEvent::Inbound(Packet::CommandTerminate));
    assert!(actions.is_empty());
    assert_eq!(manager.state(), SessionState::Authenticating);
}

#[test]
fn shutdown_kills_a_running_command() {
    let mut manager = Manager::new(test_environment());
    manager.step(SessionEvent::Opened);
    manager.step(SessionEvent::Inbound(Packet::AuthenticationSuccessful));
    manager.step(SessionEvent::Spawned(1));
    let actions = manager.step(SessionEvent::Shutdown);
    assert_eq!(manager.state(), SessionState::Closed);
    assert_eq!(actions.len(), 2);
    assert!(matches!(&actions[0], Action::Kill));
    assert!(matches!(&actions[1], Action::Close));
}

#[test]
fn connection_loss_closes() {
    let mut manager = Manager::new(test_environment());
    let actions = manager.step(SessionEvent::ConnectionLost);
    assert_eq!(manager.state(), SessionState::Closed);
    assert_eq!(actions.len(), 1);
    assert!(matches!(&actions[0], Action::Close));
}

#[test]
fn spawn_failure_aborts_the_session() {
    let mut manager = Manager::new(test_environment());
    manager.step(SessionEvent::Opened);
    manager.step(SessionEvent::Inbound(Packet::AuthenticationSuccessful));
    let actions = manager.step(SessionEvent::SpawnFailed(ApplicationError::command(
        "no such file",
    )));
    assert_eq!(manager.state(), SessionState::Closed);
    // the spawn failure keeps its explained error and its kind
    assert!(matches!(
        &actions[0],
        Action::Fail(error) if error.message() == "no such file"
            && matches!(error.kind(), ApplicationErrorKind::Command)
    ));
    assert!(matches!(&actions[1], Action::Close));
}

#[test]
fn session_url_appends_the_session() {
    let manager = Manager::new(test_environment());
    assert_eq!(
        manager.session_url("123-123-123-123"),
        "ws://localhost:8080/ws/sessions/123-123-123-123"
    );
}
