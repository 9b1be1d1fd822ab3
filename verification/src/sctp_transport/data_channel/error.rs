use vstd::prelude::*;

verus! {

/// Failures while opening or using a data channel.
#[derive(Debug)]
pub enum DataChannelError {
    OpenError(String),
    ReadStreamError(String),
    OpenTimeout,
    SendError(String),
    LockError(String),
    GetStreamError(String),
    ReadChunksError(String),
}

impl DataChannelError {
    /// The human-readable message of this error.
    pub open spec fn message(&self) -> Seq<char> {
        match self {
            DataChannelError::OpenError(e) => "Error: \"Failed to open data channel\". Details: "@
                + e@,
            DataChannelError::OpenTimeout => "Error: \"Failed to open data channel\". Details: Timed out waiting for acknowledgement"@,
            DataChannelError::ReadStreamError(e) => "Error: \"Failed to read from data channel\". Details: "@
                + e@,
            DataChannelError::SendError(e) => "Error: \"Failed to send to data channel\". Details: "@
                + e@,
            DataChannelError::LockError(e) => "Error: \"Lock error\". Details: "@ + e@,
            DataChannelError::GetStreamError(e) => "Error: \"Failed to get stream\". Details: "@
                + e@,
            DataChannelError::ReadChunksError(e) => "Error: \"Failed to read from chunks\". Details: "@
                + e@,
        }
    }

    /// Formats the error as a human-readable message.
    pub fn to_string(&self) -> (r: String)
        ensures
            r@ == self.message(),
    {
        match self {
            DataChannelError::OpenError(e) => String::from_str(
                "Error: \"Failed to open data channel\". Details: ",
            ).concat(e.as_str()),
            DataChannelError::OpenTimeout => String::from_str(
                "Error: \"Failed to open data channel\". Details: Timed out waiting for acknowledgement",
            ),
            DataChannelError::ReadStreamError(e) => String::from_str(
                "Error: \"Failed to read from data channel\". Details: ",
            ).concat(e.as_str()),
            DataChannelError::SendError(e) => String::from_str(
                "Error: \"Failed to send to data channel\". Details: ",
            ).concat(e.as_str()),
            DataChannelError::LockError(e) => String::from_str("Error: \"Lock error\". Details: ").concat(
                e.as_str(),
            ),
            DataChannelError::GetStreamError(e) => String::from_str(
                "Error: \"Failed to get stream\". Details: ",
            ).concat(e.as_str()),
            DataChannelError::ReadChunksError(e) => String::from_str(
                "Error: \"Failed to read from chunks\". Details: ",
            ).concat(e.as_str()),
        }
    }
}

} // verus!
