use vstd::prelude::*;

verus! {

/// Error type used by the RTCP module.
///
/// Represents the possible failures encountered while handling RTCP
/// reports and managing the reporting background threads.
#[derive(PartialEq, Eq, Debug)]
pub enum RtcpError {
    /// Lock was poisoned while accessing shared synchronization primitives.
    PoisonedLock,
    /// Cloning of the underlying socket failed.
    SocketCloneFailed,
    /// Received RTCP packet is malformed or not recognized.
    InvalidRTCPPacket,
    /// Failed to configure the socket (timeout, options, etc.).
    SocketConfigFailed,
    /// A RTCP Goodbye packet was received indicating shutdown.
    GoodbyeReceived,
    /// The report receiver timed out waiting for reports.
    TimedOut,
    /// Failed to acquire the connection status lock.
    ConnectionStatusLockFailed,
    /// Provided duration cannot be converted to the expected type.
    InvalidConfigDuration,
    /// Sending an RTCP packet failed.
    SendFailed(String),
    /// Receiving an RTCP packet failed.
    ReceiveFailed(String),
    /// An unexpected RTCP message was received.
    UnexpectedMessage,
}

impl RtcpError {
    /// The human-readable message of this error.
    pub open spec fn message(&self) -> Seq<char> {
        match self {
            RtcpError::PoisonedLock => "Error: Poisoned lock"@,
            RtcpError::InvalidRTCPPacket => "Error: \"Invalid or corrupted RTCP packet\""@,
            RtcpError::SocketCloneFailed => "Error: \"Failed to clone socket\""@,
            RtcpError::SocketConfigFailed => "Error: \"Failed to configure socket\""@,
            RtcpError::GoodbyeReceived => "Error: \"Goodbye\""@,
            RtcpError::TimedOut => "Error: \"Report receiver timed out\""@,
            RtcpError::ConnectionStatusLockFailed => "Error: \"Failed to acquire connection status lock\""@,
            RtcpError::InvalidConfigDuration => "Error: \"Invalid configuration duration\""@,
            RtcpError::SendFailed(e) => "Error: \"Failed to send RTCP packet. Details: "@ + e@
                + "\""@,
            RtcpError::ReceiveFailed(e) => "Error: \"Failed to receive RTCP packet. Details: "@
                + e@ + "\""@,
            RtcpError::UnexpectedMessage => "Error: Unexpected message"@,
        }
    }

    /// Formats the RTCP error as a short string.
    pub fn to_string(&self) -> (r: String)
        ensures
            r@ == self.message(),
    {
        match self {
            RtcpError::PoisonedLock => String::from_str("Error: Poisoned lock"),
            RtcpError::InvalidRTCPPacket => String::from_str(
                "Error: \"Invalid or corrupted RTCP packet\"",
            ),
            RtcpError::SocketCloneFailed => String::from_str("Error: \"Failed to clone socket\""),
            RtcpError::SocketConfigFailed => String::from_str(
                "Error: \"Failed to configure socket\"",
            ),
            RtcpError::GoodbyeReceived => String::from_str("Error: \"Goodbye\""),
            RtcpError::TimedOut => String::from_str("Error: \"Report receiver timed out\""),
            RtcpError::ConnectionStatusLockFailed => String::from_str(
                "Error: \"Failed to acquire connection status lock\"",
            ),
            RtcpError::InvalidConfigDuration => String::from_str(
                "Error: \"Invalid configuration duration\"",
            ),
            RtcpError::SendFailed(e) => String::from_str(
                "Error: \"Failed to send RTCP packet. Details: ",
            ).concat(e.as_str()).concat("\""),
            RtcpError::ReceiveFailed(e) => String::from_str(
                "Error: \"Failed to receive RTCP packet. Details: ",
            ).concat(e.as_str()).concat("\""),
            RtcpError::UnexpectedMessage => String::from_str("Error: Unexpected message"),
        }
    }
}

} // verus!
