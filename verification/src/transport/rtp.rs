//! The media packets that the video pipeline sends: one per chunk of an
//! encoded frame.
use vstd::prelude::*;

verus! {

/// A media packet carrying one chunk of an encoded video frame.
#[derive(Debug, Clone)]
pub struct RtpPacket {
    /// Packet format version.
    pub version: u8,
    /// 1 on the last chunk of a frame, 0 on the others.
    pub marker: u8,
    /// Number of chunks of the frame (modulo 256).
    pub total_chunks: u8,
    /// Whether the frame is an intra frame.
    pub is_i_frame: bool,
    /// Sequence number of the packet in the stream.
    pub sequence_number: u64,
    /// Payload type.
    pub payload_type: u8,
    /// Capture time of the frame.
    pub timestamp: u128,
    /// SSRC (synchronization source) identifier.
    pub ssrc: u32,
    /// The chunk.
    pub payload: Vec<u8>,
}

} // verus!
