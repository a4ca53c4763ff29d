//! Plain value types shared between the agent and its API collaborator: the
//! registered command, the request body that creates one, the session that
//! authorizes a single connection attempt, and the launch configuration.

use vstd::prelude::*;

verus! {

/// A command registered with the remote controller, identified by an opaque id.
pub struct Command {
    id: String,
}

/// The request body used to register a command under a unique name.
pub struct CommandCreate {
    name: String,
}

/// An id/token pair authorizing exactly one connection attempt.
pub struct Session {
    id: String,
    token: String,
}

/// What to launch: an executable and the unique name it was registered under.
pub struct ApplicationConfig {
    executable: String,
    name: String,
}

impl Command {
    pub closed spec fn spec_id(&self) -> Seq<char> {
        self.id@
    }

    pub fn new(id: String) -> (command: Command)
        ensures
            command.spec_id() == id@,
    {
        Command { id }
    }

    pub fn id(&self) -> (id: &str)
        ensures
            id@ == self.spec_id(),
    {
        self.id.as_str()
    }
}

impl CommandCreate {
    pub closed spec fn spec_name(&self) -> Seq<char> {
        self.name@
    }

    pub fn new(name: String) -> (create: CommandCreate)
        ensures
            create.spec_name() == name@,
    {
        CommandCreate { name }
    }

    pub fn name(&self) -> (name: &str)
        ensures
            name@ == self.spec_name(),
    {
        self.name.as_str()
    }
}

impl Session {
    pub closed spec fn spec_id(&self) -> Seq<char> {
        self.id@
    }

    pub closed spec fn spec_token(&self) -> Seq<char> {
        self.token@
    }

    pub fn new(id: String, token: String) -> (session: Session)
        ensures
            session.spec_id() == id@,
            session.spec_token() == token@,
    {
        Session { id, token }
    }

    pub fn id(&self) -> (id: &str)
        ensures
            id@ == self.spec_id(),
    {
        self.id.as_str()
    }

    pub fn token(&self) -> (token: &str)
        ensures
            token@ == self.spec_token(),
    {
        self.token.as_str()
    }
}

impl ApplicationConfig {
    pub closed spec fn spec_executable(&self) -> Seq<char> {
        self.executable@
    }

    pub closed spec fn spec_name(&self) -> Seq<char> {
        self.name@
    }

    pub fn new(executable: &str, name: &str) -> (config: ApplicationConfig)
        ensures
            config.spec_executable() == executable@,
            config.spec_name() == name@,
    {
        ApplicationConfig { executable: executable.to_owned(), name: name.to_owned() }
    }

    pub fn executable(&self) -> (executable: &str)
        ensures
            executable@ == self.spec_executable(),
    {
        self.executable.as_str()
    }

    pub fn name(&self) -> (name: &str)
        ensures
            name@ == self.spec_name(),
    {
        self.name.as_str()
    }
}

} // verus!
