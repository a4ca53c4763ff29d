//! The session manager: the protocol state machine that drives one
//! connection attempt. It opens with a handshake, spawns the configured
//! command once authenticated, relays supervisor events as outbound
//! packets, and applies inbound packets to the running process.
//!
//! The machine is a pure transition function: the surrounding binary owns
//! the sockets and the process, feeds every observation in as a
//! [`SessionEvent`], and performs the returned [`Action`]s. The whole
//! transition table is written down once, in [`step_spec`], and `step` is
//! proved to follow it.

use vstd::prelude::*;
use vstd::string::*;

use crate::cmd::event::CommandEvent;
use crate::error::{ApplicationError, ApplicationErrorKind};
use crate::config::{spec_ws_url, Environment};
use crate::ws::packet::Packet;
use crate::ws::websocket::{is_uri_char, valid_ws_url};

verus! {

/// The protocol states of one session.
#[derive(Clone, Copy, Debug, PartialEq, Eq, Structural)]
pub enum SessionState {
    /// The connection is being established.
    Connecting,
    /// The authentication packet was sent; waiting for the verdict.
    Authenticating,
    /// Authenticated; the command is being spawned.
    Authenticated,
    /// The command runs; output is relayed.
    Running,
    /// Termination was requested; waiting for the exit notification.
    Draining,
    /// Terminal: the session is over.
    Closed,
}

/// An observation fed into the state machine.
pub enum SessionEvent {
    /// The connection was established.
    Opened,
    /// A packet arrived on the connection; a locally due heartbeat arrives
    /// as an inbound `Ping`.
    Inbound(Packet),
    /// The supervisor published a process event.
    Process(CommandEvent),
    /// The configured command was spawned, with its process id.
    Spawned(u32),
    /// Spawning the configured command failed, with the explained error.
    SpawnFailed(ApplicationError),
    /// The connection closed or failed fatally.
    ConnectionLost,
    /// A local shutdown was requested.
    Shutdown,
}

/// An instruction handed back to the surrounding binary.
pub enum Action {
    /// Send this packet on the connection.
    Send(Packet),
    /// Spawn the configured command.
    Spawn,
    /// Kill the running command.
    Kill,
    /// Close the connection.
    Close,
    /// Surface this terminal, explained failure to the caller.
    Fail(ApplicationError),
}

/// The exit code placed in a `CommandTerminated` packet: the reported code
/// when there is a non-negative one, and zero when the process died without
/// one (for instance on a signal).
pub open spec fn spec_exit_code(code: Option<i32>) -> u32 {
    match code {
        Some(c) => if c >= 0 {
            c as u32
        } else {
            0
        },
        None => 0,
    }
}

/// The whole transition table: relates the state before an event, the
/// event, the configured bearer token, the state after, and the actions
/// handed out, exactly.
pub open spec fn step_spec(
    pre: SessionState,
    event: SessionEvent,
    token: Seq<char>,
    post: SessionState,
    out: Seq<Action>,
) -> bool {
    match (pre, event) {
        // the terminal state absorbs everything
        (SessionState::Closed, _) => post == SessionState::Closed && out.len() == 0,
        // connection loss, fatal transport errors and local shutdown force
        // the terminal state from everywhere; a running child is killed
        (_, SessionEvent::ConnectionLost) | (_, SessionEvent::Shutdown) => {
            &&& post == SessionState::Closed
            &&& if pre is Running || pre is Draining {
                out =~= seq![Action::Kill, Action::Close]
            } else {
                out =~= seq![Action::Close]
            }
        },
        // liveness: an inbound ping (a due heartbeat arrives as one) is
        // answered in every state, a pong is a no-op acknowledgement
        (_, SessionEvent::Inbound(Packet::Ping)) => post == pre && out =~= seq![
            Action::Send(Packet::Ping),
        ],
        (_, SessionEvent::Inbound(Packet::Pong)) => post == pre && out.len() == 0,
        // the handshake
        (SessionState::Connecting, SessionEvent::Opened) => {
            &&& post == SessionState::Authenticating
            &&& out.len() == 1
            &&& (out[0] matches Action::Send(p) && p matches Packet::Authenticate(t) && t@
                == token)
        },
        (SessionState::Authenticating, SessionEvent::Inbound(
            Packet::AuthenticationSuccessful,
        )) => post == SessionState::Authenticated && out =~= seq![Action::Spawn],
        (SessionState::Authenticating, SessionEvent::Inbound(
            Packet::AuthenticationFailed(reason),
        )) => {
            &&& post == SessionState::Closed
            &&& out.len() == 2
            &&& (out[0] matches Action::Fail(e) && e.spec_message() == reason@ && e.spec_kind()
                == ApplicationErrorKind::Transport)
            &&& out[1] is Close
        },
        // the spawn acknowledgement; a spawn failure aborts the session
        (SessionState::Authenticated, SessionEvent::Spawned(_)) => post == SessionState::Running
            && out =~= seq![Action::Send(Packet::CommandLaunched)],
        (SessionState::Authenticated, SessionEvent::SpawnFailed(error)) => post
            == SessionState::Closed && out =~= seq![Action::Fail(error), Action::Close],
        // relaying output while the command runs or drains
        (SessionState::Running, SessionEvent::Process(CommandEvent::Stdout(line)))
        | (SessionState::Draining, SessionEvent::Process(CommandEvent::Stdout(line))) => {
            &&& post == pre
            &&& out.len() == 1
            &&& (out[0] matches Action::Send(p) && p matches Packet::CommandOutput {
                stream,
                message,
            } && stream@ == "stdout"@ && message == line)
        },
        (SessionState::Running, SessionEvent::Process(CommandEvent::Stderr(line)))
        | (SessionState::Draining, SessionEvent::Process(CommandEvent::Stderr(line))) => {
            &&& post == pre
            &&& out.len() == 1
            &&& (out[0] matches Action::Send(p) && p matches Packet::CommandOutput {
                stream,
                message,
            } && stream@ == "stderr"@ && message == line)
        },
        // the exit notification ends the session
        (SessionState::Running, SessionEvent::Process(CommandEvent::Exited { code, signal }))
        | (SessionState::Draining, SessionEvent::Process(
            CommandEvent::Exited { code, signal },
        )) => post == SessionState::Closed && out =~= seq![
            Action::Send(Packet::CommandTerminated(spec_exit_code(code))),
            Action::Close,
        ],
        // a termination request kills the child and awaits its exit
        (SessionState::Running, SessionEvent::Inbound(Packet::CommandTerminate)) => post
            == SessionState::Draining && out =~= seq![Action::Kill],
        // everything else — unexpected packets, process diagnostics, stray
        // acknowledgements — is ignored with no action, never fatal
        _ => post == pre && out.len() == 0,
    }
}

/// The session manager: the environment it talks to and the state of the
/// one session it drives.
pub struct Manager {
    environment: Environment,
    state: SessionState,
}

impl Manager {
    pub closed spec fn spec_environment(&self) -> Environment {
        self.environment
    }

    pub closed spec fn spec_state(&self) -> SessionState {
        self.state
    }

    /// A new manager for one session against the given environment.
    pub fn new(environment: Environment) -> (manager: Manager)
        ensures
            manager.spec_environment() == environment,
            manager.spec_state() == SessionState::Connecting,
    {
        Manager { environment, state: SessionState::Connecting }
    }

    pub fn environment(&self) -> (environment: &Environment)
        ensures
            environment == self.spec_environment(),
    {
        &self.environment
    }

    pub fn state(&self) -> (state: SessionState)
        ensures
            state == self.spec_state(),
    {
        self.state
    }

    /// The control-channel URL for a session of this manager's environment.
    pub fn session_url(&self, session_id: &str) -> (url: String)
        ensures
            url@ == spec_ws_url(self.spec_environment()) + "/ws/sessions/"@ + session_id@,
    {
        self.environment.ws_url().concat("/ws/sessions/").concat(session_id)
    }

    /// Applies one observation: moves to the next state and hands back the
    /// actions to perform, exactly as the transition table says.
    pub fn step(&mut self, event: SessionEvent) -> (actions: Vec<Action>)
        ensures
            step_spec(
                old(self).spec_state(),
                event,
                old(self).spec_environment().spec_token(),
                final(self).spec_state(),
                actions@,
            ),
            final(self).spec_environment() == old(self).spec_environment(),
    {
        match (self.state, event) {
            (SessionState::Closed, _) => Vec::new(),
            (_, SessionEvent::ConnectionLost) | (_, SessionEvent::Shutdown) => {
                let was_running = match self.state {
                    SessionState::Running | SessionState::Draining => true,
                    _ => false,
                };
                self.state = SessionState::Closed;
                if was_running {
                    vec![Action::Kill, Action::Close]
                } else {
                    vec![Action::Close]
                }
            },
            (_, SessionEvent::Inbound(Packet::Ping)) => vec![Action::Send(Packet::Ping)],
            (_, SessionEvent::Inbound(Packet::Pong)) => Vec::new(),
            (SessionState::Connecting, SessionEvent::Opened) => {
                self.state = SessionState::Authenticating;
                vec![Action::Send(Packet::Authenticate(self.environment.token_string()))]
            },
            (SessionState::Authenticating, SessionEvent::Inbound(
                Packet::AuthenticationSuccessful,
            )) => {
                self.state = SessionState::Authenticated;
                vec![Action::Spawn]
            },
            (SessionState::Authenticating, SessionEvent::Inbound(
                Packet::AuthenticationFailed(reason),
            )) => {
                self.state = SessionState::Closed;
                vec![
                    Action::Fail(ApplicationError::transport(reason.as_str())),
                    Action::Close,
                ]
            },
            (SessionState::Authenticated, SessionEvent::Spawned(_)) => {
                self.state = SessionState::Running;
                vec![Action::Send(Packet::CommandLaunched)]
            },
            (SessionState::Authenticated, SessionEvent::SpawnFailed(error)) => {
                self.state = SessionState::Closed;
                vec![Action::Fail(error), Action::Close]
            },
            (SessionState::Running, SessionEvent::Process(CommandEvent::Stdout(line)))
            | (SessionState::Draining, SessionEvent::Process(CommandEvent::Stdout(line))) => {
                vec![
                    Action::Send(
                        Packet::CommandOutput { stream: String::from_str("stdout"), message: line },
                    ),
                ]
            },
            (SessionState::Running, SessionEvent::Process(CommandEvent::Stderr(line)))
            | (SessionState::Draining, SessionEvent::Process(CommandEvent::Stderr(line))) => {
                vec![
                    Action::Send(
                        Packet::CommandOutput { stream: String::from_str("stderr"), message: line },
                    ),
                ]
            },
            (SessionState::Running, SessionEvent::Process(CommandEvent::Exited { code, signal }))
            | (SessionState::Draining, SessionEvent::Process(
                CommandEvent::Exited { code, signal },
            )) => {
                self.state = SessionState::Closed;
                let reported: u32 = match code {
                    Some(c) => if c >= 0 {
                        c as u32
                    } else {
                        0
                    },
                    None => 0,
                };
                vec![Action::Send(Packet::CommandTerminated(reported)), Action::Close]
            },
            (SessionState::Running, SessionEvent::Inbound(Packet::CommandTerminate)) => {
                self.state = SessionState::Draining;
                vec![Action::Kill]
            },
            _ => Vec::new(),
        }
    }
}

/// The URL built for a session is a well-formed control-channel URL
/// whenever the host and the session id are themselves URL-clean, so
/// building the upgrade request for it never fails.
pub proof fn lemma_session_url_valid(environment: Environment, session_id: Seq<char>)
    requires
        environment.spec_host().len() > 0,
        !(environment.spec_host()[0] == '/' || environment.spec_host()[0] == ':'
            || environment.spec_host()[0] == '?' || environment.spec_host()[0] == '#'),
        forall|k: int|
            0 <= k < environment.spec_host().len() ==> is_uri_char(
                #[trigger] environment.spec_host()[k],
            ),
        forall|k: int| 0 <= k < session_id.len() ==> is_uri_char(#[trigger] session_id[k]),
    ensures
        valid_ws_url(spec_ws_url(environment) + "/ws/sessions/"@ + session_id),
{
    reveal_strlit("ws://");
    reveal_strlit("wss://");
    reveal_strlit("/ws/sessions/");
    let host = environment.spec_host();
    let lit = "/ws/sessions/"@;
    let url = spec_ws_url(environment) + lit + session_id;
    let scheme_len: int = if environment.spec_https() {
        6
    } else {
        5
    };
    if environment.spec_https() {
        assert(url.take(6) =~= "wss://"@);
        assert(url[2] == 's');
        assert(!has_prefix_ws(url)) by {
            if url.len() >= 5 && url.take(5) == "ws://"@ {
                assert(url.take(5)[2] == ':');
            }
        };
    } else {
        assert(url.take(5) =~= "ws://"@);
    }
    assert(url.skip(scheme_len)[0] == url[scheme_len]);
    assert(url[scheme_len] == host[0]);
    assert forall|k: int| 0 <= k < url.len() implies is_uri_char(url[k]) by {
        if k < scheme_len {
            if environment.spec_https() {
                assert(url[k] == "wss://"@[k]);
            } else {
                assert(url[k] == "ws://"@[k]);
            }
        } else if k < scheme_len + host.len() {
            assert(url[k] == host[k - scheme_len]);
        } else if k < scheme_len + host.len() + 13 {
            assert(url[k] == lit[k - scheme_len - host.len()]);
        } else {
            assert(url[k] == session_id[k - scheme_len - host.len() - 13]);
        }
    };
}

/// Whether a sequence starts with the plain `ws` scheme.
spec fn has_prefix_ws(url: Seq<char>) -> bool {
    url.len() >= 5 && url.take(5) == "ws://"@
}

/// An authentication failure received while authenticating moves the
/// manager straight to the terminal state, and no `CommandLaunched` packet
/// is among the actions.
pub proof fn lemma_auth_failure_closes(
    reason: String,
    token: Seq<char>,
    post: SessionState,
    out: Seq<Action>,
)
    requires
        step_spec(
            SessionState::Authenticating,
            SessionEvent::Inbound(Packet::AuthenticationFailed(reason)),
            token,
            post,
            out,
        ),
    ensures
        post == SessionState::Closed,
        forall|k: int|
            0 <= k < out.len() ==> !(#[trigger] out[k] matches Action::Send(
                Packet::CommandLaunched,
            )),
{
}

/// The terminal state absorbs every event: nothing more is done or sent.
pub proof fn lemma_closed_absorbing(
    event: SessionEvent,
    token: Seq<char>,
    post: SessionState,
    out: Seq<Action>,
)
    requires
        step_spec(SessionState::Closed, event, token, post, out),
    ensures
        post == SessionState::Closed,
        out.len() == 0,
{
}

/// `CommandLaunched` is sent on the spawn acknowledgement alone: any step
/// whose actions carry it started in `Authenticated` and consumed a
/// `Spawned` event.
pub proof fn lemma_command_launched_needs_spawn(
    pre: SessionState,
    event: SessionEvent,
    token: Seq<char>,
    post: SessionState,
    out: Seq<Action>,
    k: int,
)
    requires
        step_spec(pre, event, token, post, out),
        0 <= k < out.len(),
        out[k] matches Action::Send(Packet::CommandLaunched),
    ensures
        pre == SessionState::Authenticated,
        event is Spawned,
{
}

} // verus!
