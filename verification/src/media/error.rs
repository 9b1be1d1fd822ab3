use vstd::prelude::*;

verus! {

/// Errors that can occur within the media pipeline.
///
/// These cover configuration/mapping failures, parsing issues, send errors,
/// SRTP protection failures, and poisoned synchronization primitives.
#[derive(Debug)]
pub enum MediaPipelineError {
    /// Generic mapping or configuration error with details.
    MapError(String),
    /// Parsing failure with context.
    ParsingError(String),
    /// Failure when sending data (e.g., across channels or sockets).
    SendError(String),
    /// Failure while protecting or unprotecting RTP packets.
    ProtectionError(String),
    /// A poisoned mutex or lock was encountered.
    PoisonedLock,
}

impl MediaPipelineError {
    /// The human-readable message of this error.
    pub open spec fn message(&self) -> Seq<char> {
        match self {
            MediaPipelineError::MapError(e) => e@,
            MediaPipelineError::ParsingError(e) => "Error: \"Parsing failed\": "@ + e@,
            MediaPipelineError::SendError(e) => "Error: \"Send failed\": "@ + e@,
            MediaPipelineError::ProtectionError(e) => "Error: \"Failed to protect RTP packet ("@
                + e@ + ")"@,
            MediaPipelineError::PoisonedLock => "Error: \"Poisoned lock\""@,
        }
    }

    /// Formats the error as a human-readable message.
    pub fn to_string(&self) -> (r: String)
        ensures
            r@ == self.message(),
    {
        match self {
            MediaPipelineError::MapError(e) => e.clone(),
            MediaPipelineError::ParsingError(e) => String::from_str(
                "Error: \"Parsing failed\": ",
            ).concat(e.as_str()),
            MediaPipelineError::SendError(e) => String::from_str("Error: \"Send failed\": ").concat(
                e.as_str(),
            ),
            MediaPipelineError::ProtectionError(e) => String::from_str(
                "Error: \"Failed to protect RTP packet (",
            ).concat(e.as_str()).concat(")"),
            MediaPipelineError::PoisonedLock => String::from_str("Error: \"Poisoned lock\""),
        }
    }
}

} // verus!
