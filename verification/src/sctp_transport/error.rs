use vstd::prelude::*;

verus! {

/// Failures of the SCTP transport that carries data channels.
#[derive(Debug)]
pub enum SCTPTransportError {
    ConnectError(String),
    OpenStreamError(String),
    OpenDataChannelError(String),
    IOError(String),
    PoisonedLock(String),
    SocketConfigError(String),
    MapError(String),
}

impl SCTPTransportError {
    /// The human-readable message of this error.
    pub open spec fn message(&self) -> Seq<char> {
        match self {
            SCTPTransportError::ConnectError(e) => "Error: \"Failed to connect\". Details: "@ + e@,
            SCTPTransportError::OpenStreamError(e) => "Error: \"Failed to open stream\". Details: "@
                + e@,
            SCTPTransportError::OpenDataChannelError(e) => e@,
            SCTPTransportError::IOError(e) => "Error: \"I/O operation failed\". Details: "@ + e@,
            SCTPTransportError::PoisonedLock(e) => "Error: \"Poisoned lock\" . Details: "@ + e@,
            SCTPTransportError::SocketConfigError(e) => "Error: \"Failed to config socket\" . Details: "@
                + e@,
            SCTPTransportError::MapError(e) => e@,
        }
    }

    /// Formats the error as a human-readable message.
    pub fn to_string(&self) -> (r: String)
        ensures
            r@ == self.message(),
    {
        match self {
            SCTPTransportError::ConnectError(e) => String::from_str(
                "Error: \"Failed to connect\". Details: ",
            ).concat(e.as_str()),
            SCTPTransportError::OpenStreamError(e) => String::from_str(
                "Error: \"Failed to open stream\". Details: ",
            ).concat(e.as_str()),
            SCTPTransportError::OpenDataChannelError(e) => e.clone(),
            SCTPTransportError::IOError(e) => String::from_str(
                "Error: \"I/O operation failed\". Details: ",
            ).concat(e.as_str()),
            SCTPTransportError::PoisonedLock(e) => String::from_str(
                "Error: \"Poisoned lock\" . Details: ",
            ).concat(e.as_str()),
            SCTPTransportError::SocketConfigError(e) => String::from_str(
                "Error: \"Failed to config socket\" . Details: ",
            ).concat(e.as_str()),
            SCTPTransportError::MapError(e) => e.clone(),
        }
    }
}

} // verus!
