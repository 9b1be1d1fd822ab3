//! What the RTP receiver does with each read of its socket.
use crate::rtp::connection_status::ConnectionStatus;
use crate::rtp::error::RtpError;
use vstd::prelude::*;

verus! {

/// What one read of the RTP socket produced.
pub enum RtpSocketEvent {
    /// A datagram with these bytes arrived.
    Datagram(Vec<u8>),
    /// No datagram arrived before the read timed out.
    WouldBlock,
    /// The read failed, with this error text.
    Failed(String),
}

/// What the receiver does next.
pub enum ReceiveStep {
    /// Keep reading.
    Wait,
    /// The datagram is a (secured) RTP packet: unprotect it and return it.
    Unprotect(Vec<u8>),
    /// Stop with this error.
    Fail(RtpError),
    /// Close the report exchange, then stop with this error.
    CloseReportsAndFail(RtpError),
}

/// Whether a first byte marks an RTP or SRTP packet (128 to 191).
pub open spec fn is_rtp_byte(b: u8) -> bool {
    128 <= b <= 191
}

/// Decides what a read of the RTP socket leads to: an empty datagram, a
/// DTLS record or any datagram that is not RTP is skipped; an RTP datagram
/// is to be unprotected; a timed-out read keeps waiting unless the
/// connection is closed; any other read error closes the report exchange
/// and fails with `ReceiveFailed`.
pub fn receive_step(event: RtpSocketEvent, status: ConnectionStatus) -> (r: ReceiveStep)
    ensures
        match event {
            RtpSocketEvent::Datagram(d) => if d@.len() > 0 && is_rtp_byte(d@[0]) {
                r matches ReceiveStep::Unprotect(p) && p@ == d@
            } else {
                r is Wait
            },
            RtpSocketEvent::WouldBlock => if status == ConnectionStatus::Closed {
                r matches ReceiveStep::Fail(e) && e == RtpError::ConnectionClosed
            } else {
                r is Wait
            },
            RtpSocketEvent::Failed(m) => r matches ReceiveStep::CloseReportsAndFail(e) && e
                == RtpError::ReceiveFailed(m),
        },
{
    match event {
        RtpSocketEvent::Datagram(d) => {
            if d.len() == 0 {
                return ReceiveStep::Wait;
            }
            let first = d[0];
            if 20 <= first && first <= 63 {
                ReceiveStep::Wait
            } else if 128 <= first && first <= 191 {
                ReceiveStep::Unprotect(d)
            } else {
                ReceiveStep::Wait
            }
        },
        RtpSocketEvent::WouldBlock => {
            if status == ConnectionStatus::Closed {
                ReceiveStep::Fail(RtpError::ConnectionClosed)
            } else {
                ReceiveStep::Wait
            }
        },
        RtpSocketEvent::Failed(m) => ReceiveStep::CloseReportsAndFail(RtpError::ReceiveFailed(m)),
    }
}

} // verus!
