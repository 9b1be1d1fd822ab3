//! What the RTP sender puts on the wire.
use crate::rtp::connection_status::ConnectionStatus;
use crate::rtp::error::RtpError;
use crate::rtp::rtp_packet::{rtp_packet_bytes, RtpPacket, RtpPacketView};
use vstd::prelude::*;

verus! {

/// The fixed fields of the packets of one outgoing stream.
pub struct RtpSender {
    pub ssrc: u32,
    pub rtp_version: u8,
}

impl RtpSender {
    /// A sender for the stream `ssrc`, writing packets of version
    /// `rtp_version`.
    pub fn new(ssrc: u32, rtp_version: u8) -> (r: Self)
        ensures
            r.ssrc == ssrc,
            r.rtp_version == rtp_version,
    {
        RtpSender { ssrc, rtp_version }
    }

    /// The bytes to send for a payload: nothing can be sent once the
    /// connection is closed; otherwise they are the packet of the stream's
    /// version and SSRC with the given fields.
    pub fn send(
        &self,
        status: ConnectionStatus,
        payload: &[u8],
        payload_type: u8,
        timestamp: u32,
        frame_id: u64,
        chunk_id: u64,
        marker: u16,
    ) -> (r: Result<Vec<u8>, RtpError>)
        ensures
            status == ConnectionStatus::Closed ==> r == Err::<Vec<u8>, RtpError>(
                RtpError::ConnectionClosed,
            ),
            status != ConnectionStatus::Closed ==> (r matches Ok(bytes) && bytes@ == rtp_packet_bytes(
                RtpPacketView {
                    version: self.rtp_version,
                    marker,
                    payload_type,
                    frame_id,
                    chunk_id,
                    timestamp,
                    ssrc: self.ssrc,
                    payload: payload@,
                },
            )),
    {
        if status == ConnectionStatus::Closed {
            return Err(RtpError::ConnectionClosed);
        }
        let packet = RtpPacket::new(
            self.rtp_version,
            marker,
            payload_type,
            vstd::slice::slice_to_vec(payload),
            timestamp,
            frame_id,
            chunk_id,
            self.ssrc,
        );
        Ok(packet.to_bytes())
    }
}

} // verus!
