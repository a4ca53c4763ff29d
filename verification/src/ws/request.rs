//! Typed requests observed on the control channel, and the stream names
//! used when relaying command output.

use vstd::prelude::*;
use vstd::string::*;

verus! {

/// Which standard stream a piece of output belongs to.
#[derive(Clone, Copy, Debug, PartialEq, Eq, Structural)]
pub enum StreamType {
    Stderr,
    Stdout,
    Stdin,
}

impl StreamType {
    /// The display name of the stream.
    pub fn label(&self) -> (label: &'static str)
        ensures
            self is Stderr ==> label@ == "Stderr"@,
            self is Stdout ==> label@ == "Stdout"@,
            self is Stdin ==> label@ == "Stdin"@,
    {
        match self {
            StreamType::Stderr => "Stderr",
            StreamType::Stdout => "Stdout",
            StreamType::Stdin => "Stdin",
        }
    }

    /// The wire name of the stream, as carried in a `CommandOutput` packet.
    pub fn wire_name(&self) -> (name: &'static str)
        ensures
            self is Stderr ==> name@ == "stderr"@,
            self is Stdout ==> name@ == "stdout"@,
            self is Stdin ==> name@ == "stdin"@,
    {
        match self {
            StreamType::Stderr => "stderr",
            StreamType::Stdout => "stdout",
            StreamType::Stdin => "stdin",
        }
    }
}

/// A request observed on the control channel.
pub enum Request {
    /// A line of output on one of the standard streams.
    Event { stream: StreamType, message: String },
    /// A liveness probe.
    Ping,
    /// An authentication request carrying the bearer token.
    Authenticate(String),
}

impl Request {
    /// A one-line description of the request. The token of an
    /// authentication request is never included.
    pub fn describe(&self) -> (text: String)
        ensures
            self matches Request::Event { stream, message } ==> text@ == "Event ("@ + (match stream {
                StreamType::Stderr => "Stderr"@,
                StreamType::Stdout => "Stdout"@,
                StreamType::Stdin => "Stdin"@,
            }) + "): "@ + message@,
            self is Ping ==> text@ == "Ping"@,
            self is Authenticate ==> text@ == "Authenticate"@,
    {
        match self {
            Request::Event { stream, message } => {
                let text = String::from_str("Event (").concat(stream.label()).concat(
                    "): ",
                ).concat(message.as_str());
                text
            },
            Request::Ping => String::from_str("Ping"),
            Request::Authenticate(_) => String::from_str("Authenticate"),
        }
    }
}

} // verus!
