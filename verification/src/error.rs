//! The error taxonomy: configuration errors (bad URL, headers or config),
//! transport errors (connection and protocol failures), command errors
//! (spawn and argument failures) and IO errors (pipe and file failures).

use vstd::prelude::*;

verus! {

/// Which part of the system an error belongs to.
#[derive(Clone, Copy, Debug, PartialEq, Eq, Structural)]
pub enum ApplicationErrorKind {
    Io,
    Command,
    Transport,
    Configuration,
}

impl ApplicationErrorKind {
    /// A short label for the kind, used when rendering an error.
    pub fn label(&self) -> (label: &'static str)
        ensures
            self is Io ==> label@ == "io"@,
            self is Command ==> label@ == "command"@,
            self is Transport ==> label@ == "transport"@,
            self is Configuration ==> label@ == "configuration issue"@,
    {
        match self {
            ApplicationErrorKind::Io => "io",
            ApplicationErrorKind::Command => "command",
            ApplicationErrorKind::Transport => "transport",
            ApplicationErrorKind::Configuration => "configuration issue",
        }
    }
}

/// An explained error, classified by kind.
#[derive(Clone, Debug)]
pub struct ApplicationError {
    message: String,
    kind: ApplicationErrorKind,
}

impl ApplicationError {
    pub closed spec fn spec_message(&self) -> Seq<char> {
        self.message@
    }

    pub closed spec fn spec_kind(&self) -> ApplicationErrorKind {
        self.kind
    }

    fn new(message: &str, kind: ApplicationErrorKind) -> (error: ApplicationError)
        ensures
            error.spec_message() == message@,
            error.spec_kind() == kind,
    {
        ApplicationError { message: message.to_owned(), kind }
    }

    pub fn transport(explanation: &str) -> (error: ApplicationError)
        ensures
            error.spec_message() == explanation@,
            error.spec_kind() == ApplicationErrorKind::Transport,
    {
        Self::new(explanation, ApplicationErrorKind::Transport)
    }

    pub fn command(explanation: &str) -> (error: ApplicationError)
        ensures
            error.spec_message() == explanation@,
            error.spec_kind() == ApplicationErrorKind::Command,
    {
        Self::new(explanation, ApplicationErrorKind::Command)
    }

    pub fn configuration(explanation: &str) -> (error: ApplicationError)
        ensures
            error.spec_message() == explanation@,
            error.spec_kind() == ApplicationErrorKind::Configuration,
    {
        Self::new(explanation, ApplicationErrorKind::Configuration)
    }

    pub fn io(explanation: &str) -> (error: ApplicationError)
        ensures
            error.spec_message() == explanation@,
            error.spec_kind() == ApplicationErrorKind::Io,
    {
        Self::new(explanation, ApplicationErrorKind::Io)
    }

    pub fn kind(&self) -> (kind: &ApplicationErrorKind)
        ensures
            kind == self.spec_kind(),
    {
        &self.kind
    }

    /// The explanation this error was built with.
    pub fn message(&self) -> (message: &str)
        ensures
            message@ == self.spec_message(),
    {
        self.message.as_str()
    }
}

} // verus!
