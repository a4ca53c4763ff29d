//! The tagged wire-protocol message exchanged over the control channel.

use vstd::prelude::*;
use vstd::string::*;

use crate::ws::transport::{dec, u32_string};

verus! {

/// A wire-protocol message. On the wire each packet is a JSON object
/// `{"packet": <tag>, "content": <value-or-omitted>}`; see the transport
/// module for the exact encoding.
#[derive(Debug, Clone)]
pub enum Packet {
    /// Sent to probe liveness.
    Ping,
    /// Received as a liveness acknowledgement.
    Pong,
    /// Sent to authenticate with the bearer token.
    Authenticate(String),
    /// Received when authentication succeeded.
    AuthenticationSuccessful,
    /// Received when authentication failed, with the reason.
    AuthenticationFailed(String),
    /// Sent for every line of command output.
    CommandOutput { stream: String, message: String },
    /// Sent when the command exited, with its exit code.
    CommandTerminated(u32),
    /// Received to request termination of the running command.
    CommandTerminate,
    /// Sent once the command has been spawned.
    CommandLaunched,
}

/// The mathematical model of a packet: the same tags and contents, with
/// every string abstracted to its character sequence.
pub enum PacketModel {
    Ping,
    Pong,
    Authenticate(Seq<char>),
    AuthenticationSuccessful,
    AuthenticationFailed(Seq<char>),
    CommandOutput { stream: Seq<char>, message: Seq<char> },
    CommandTerminated(u32),
    CommandTerminate,
    CommandLaunched,
}

impl View for Packet {
    type V = PacketModel;

    open spec fn view(&self) -> PacketModel {
        match self {
            Packet::Ping => PacketModel::Ping,
            Packet::Pong => PacketModel::Pong,
            Packet::Authenticate(token) => PacketModel::Authenticate(token@),
            Packet::AuthenticationSuccessful => PacketModel::AuthenticationSuccessful,
            Packet::AuthenticationFailed(reason) => PacketModel::AuthenticationFailed(reason@),
            Packet::CommandOutput { stream, message } => PacketModel::CommandOutput {
                stream: stream@,
                message: message@,
            },
            Packet::CommandTerminated(code) => PacketModel::CommandTerminated(*code),
            Packet::CommandTerminate => PacketModel::CommandTerminate,
            Packet::CommandLaunched => PacketModel::CommandLaunched,
        }
    }
}

impl Packet {
    /// A one-line description of the packet, as used in diagnostics. The
    /// token of an authentication packet is never included.
    pub fn describe(&self) -> (text: String)
        ensures
            self is Ping ==> text@ == "ping"@,
            self is Pong ==> text@ == "pong"@,
            self is Authenticate ==> text@ == "authenticate"@,
            self is AuthenticationSuccessful ==> text@ == "authentication successful"@,
            self matches Packet::AuthenticationFailed(message) ==> text@
                == "authenticate failed (message = "@ + message@ + ")"@,
            self matches Packet::CommandOutput { stream, message } ==> text@
                == "command output ( stream = "@ + stream@ + ", message = "@ + message@ + ")"@,
            self matches Packet::CommandTerminated(code) ==> text@
                == "command terminated (code = "@ + dec(*code as int) + ")"@,
            self is CommandTerminate ==> text@ == "command terminate"@,
            self is CommandLaunched ==> text@ == "command launched"@,
    {
        match self {
            Packet::Ping => String::from_str("ping"),
            Packet::Pong => String::from_str("pong"),
            Packet::Authenticate(_) => String::from_str("authenticate"),
            Packet::AuthenticationSuccessful => String::from_str("authentication successful"),
            Packet::AuthenticationFailed(message) => String::from_str(
                "authenticate failed (message = ",
            ).concat(message.as_str()).concat(")"),
            Packet::CommandOutput { stream, message } => String::from_str(
                "command output ( stream = ",
            ).concat(stream.as_str()).concat(", message = ").concat(message.as_str()).concat(")"),
            Packet::CommandTerminated(code) => {
                let numeral = u32_string(*code);
                String::from_str("command terminated (code = ").concat(numeral.as_str()).concat(
                    ")",
                )
            },
            Packet::CommandTerminate => String::from_str("command terminate"),
            Packet::CommandLaunched => String::from_str("command launched"),
        }
    }
}

} // verus!
