use vstd::prelude::*;

verus! {

/// Represents the different types of errors that can occur while handling RTP operations.
#[derive(PartialEq, Eq, Debug)]
pub enum RtpError {
    /// The requested address is not available.
    AddrNotAvailable,
    /// Failed to configure socket.
    SocketConfigFailed,
    /// Failed to clone a socket.
    SocketCloneFailed,
    /// Failed to send through the socket.
    SendFailed,
    /// Failed to receive from the socket.
    ReceiveFailed(String),
    /// The received RTP packet was invalid, malformed, or corrupted.
    InvalidRtpPacket,
    /// Failed to terminate an active RTP connection or related thread.
    TerminateFailed,
    /// Failed to send or receive because connection has been closed
    ConnectionClosed,
    /// Failed to acquire connection status lock
    ConnectionStatusLockFailed,
    /// RTCP Error
    RTCPError(String),
    /// Poisoned lock
    PoisonedLock,
}

impl RtpError {
    /// The human-readable message of this error.
    pub open spec fn message(&self) -> Seq<char> {
        match self {
            RtpError::AddrNotAvailable => "Error: \"Address not available\""@,
            RtpError::SocketConfigFailed => "Error: \"Failed to configure socket\""@,
            RtpError::SendFailed => "Error: \"Failed to send RTP packet\""@,
            RtpError::ReceiveFailed(e) => "Error: \"Failed to receive RTP packet. Details: "@ + e@
                + "\""@,
            RtpError::InvalidRtpPacket => "Error: \"Invalid or corrupted RTP packet\""@,
            RtpError::SocketCloneFailed => "Error: \"Failed to clone socket\""@,
            RtpError::TerminateFailed => "Error: \"Failed to terminate\""@,
            RtpError::ConnectionClosed => "Error: \"Connection closed\""@,
            RtpError::RTCPError(e) => e@,
            RtpError::ConnectionStatusLockFailed => "Error: \"Failed to acquire connection status lock\""@,
            RtpError::PoisonedLock => "Error: \"The mutex was poisoned\""@,
        }
    }

    /// Formats the error as a short human-readable message.
    pub fn to_string(&self) -> (r: String)
        ensures
            r@ == self.message(),
    {
        match self {
            RtpError::AddrNotAvailable => String::from_str("Error: \"Address not available\""),
            RtpError::SocketConfigFailed => String::from_str("Error: \"Failed to configure socket\""),
            RtpError::SendFailed => String::from_str("Error: \"Failed to send RTP packet\""),
            RtpError::ReceiveFailed(e) => String::from_str(
                "Error: \"Failed to receive RTP packet. Details: ",
            ).concat(e.as_str()).concat("\""),
            RtpError::InvalidRtpPacket => String::from_str(
                "Error: \"Invalid or corrupted RTP packet\"",
            ),
            RtpError::SocketCloneFailed => String::from_str("Error: \"Failed to clone socket\""),
            RtpError::TerminateFailed => String::from_str("Error: \"Failed to terminate\""),
            RtpError::ConnectionClosed => String::from_str("Error: \"Connection closed\""),
            RtpError::RTCPError(e) => e.clone(),
            RtpError::ConnectionStatusLockFailed => String::from_str(
                "Error: \"Failed to acquire connection status lock\"",
            ),
            RtpError::PoisonedLock => String::from_str("Error: \"The mutex was poisoned\""),
        }
    }
}

} // verus!
