//! The packet decisions of the media pipelines: an encoded video frame
//! becomes one media packet per chunk, an encoded audio frame one packet,
//! and received packets are routed by payload type.
use crate::media::error::MediaPipelineError;
use crate::media::frame_handler::encoded_frame::EncodedFrame;
use crate::transport::rtp::RtpPacket;
use vstd::prelude::*;

verus! {

/// The packet fields that come from the media configuration.
pub struct VideoStreamConfig {
    pub rtp_version: u8,
    pub video_payload_type: u8,
    pub frame_ssrc: u32,
}

/// The sequence number `k` packets after `start`, saturating at the
/// largest `u64`.
pub open spec fn seq_after(start: u64, k: int) -> u64 {
    if start + k > u64::MAX {
        u64::MAX
    } else {
        (start + k) as u64
    }
}

/// Whether `p` is the packet of chunk `i` of a frame of `n` chunks.
pub open spec fn chunk_packet(
    p: RtpPacket,
    i: int,
    n: int,
    chunk: Seq<u8>,
    is_i_frame: bool,
    frame_time: u128,
    start: u64,
    config: VideoStreamConfig,
) -> bool {
    &&& p.version == config.rtp_version
    &&& p.marker == (if i == n - 1 { 1u8 } else { 0u8 })
    &&& p.total_chunks == n as u8
    &&& p.is_i_frame == is_i_frame
    &&& p.sequence_number == seq_after(start, i)
    &&& p.payload_type == config.video_payload_type
    &&& p.timestamp == frame_time
    &&& p.ssrc == config.frame_ssrc
    &&& p.payload@ == chunk
}

/// Builds the packets of an encoded frame, one per chunk in order, and
/// advances the sequence number once per packet (saturating). A pipeline
/// that is no longer connected sends nothing and fails with `SendError`.
pub fn send_encoded_frame(
    encoded_frame: &EncodedFrame,
    connected: bool,
    sequence_number: &mut u64,
    config: &VideoStreamConfig,
) -> (r: Result<Vec<RtpPacket>, MediaPipelineError>)
    ensures
        !connected ==> {
            &&& *final(sequence_number) == *old(sequence_number)
            &&& r matches Err(MediaPipelineError::SendError(m)) && m@ == "Media pipeline turned off"@
        },
        connected ==> {
            &&& *final(sequence_number) == seq_after(
                *old(sequence_number),
                encoded_frame.chunks@.len() as int,
            )
            &&& r matches Ok(packets) && packets@.len() == encoded_frame.chunks@.len() && forall|
                i: int,
            |
                0 <= i < packets@.len() ==> chunk_packet(
                    #[trigger] packets@[i],
                    i,
                    encoded_frame.chunks@.len() as int,
                    encoded_frame.chunks@[i]@,
                    encoded_frame.is_i_frame,
                    encoded_frame.frame_time,
                    *old(sequence_number),
                    *config,
                )
        },
{
    if !connected {
        return Err(MediaPipelineError::SendError(String::from_str("Media pipeline turned off")));
    }
    let total_chunks = encoded_frame.chunks.len();
    let ghost start = *sequence_number;
    let mut packets: Vec<RtpPacket> = Vec::new();
    let mut i: usize = 0;
    while i < total_chunks
        invariant
            total_chunks == encoded_frame.chunks@.len(),
            i <= total_chunks,
            packets@.len() == i,
            *sequence_number == seq_after(start, i as int),
            forall|j: int|
                0 <= j < i ==> chunk_packet(
                    #[trigger] packets@[j],
                    j,
                    total_chunks as int,
                    encoded_frame.chunks@[j]@,
                    encoded_frame.is_i_frame,
                    encoded_frame.frame_time,
                    start,
                    *config,
                ),
        decreases total_chunks - i,
    {
        let packet = RtpPacket {
            version: config.rtp_version,
            marker: if i == total_chunks - 1 {
                1
            } else {
                0
            },
            total_chunks: total_chunks as u8,
            is_i_frame: encoded_frame.is_i_frame,
            sequence_number: *sequence_number,
            payload_type: config.video_payload_type,
            timestamp: encoded_frame.frame_time,
            ssrc: config.frame_ssrc,
            payload: encoded_frame.chunks[i].clone(),
        };
        *sequence_number = sequence_number.saturating_add(1);
        packets.push(packet);
        i = i + 1;
    }
    Ok(packets)
}

/// The packets of a frame carry its chunks in order, only the last one is
/// marked, and their sequence numbers follow each other while they do not
/// reach the largest `u64`.
pub proof fn lemma_frame_packets(
    packets: Seq<RtpPacket>,
    chunks: Seq<Seq<u8>>,
    is_i_frame: bool,
    frame_time: u128,
    start: u64,
    config: VideoStreamConfig,
)
    requires
        packets.len() == chunks.len(),
        forall|i: int|
            0 <= i < packets.len() ==> chunk_packet(
                #[trigger] packets[i],
                i,
                chunks.len() as int,
                chunks[i],
                is_i_frame,
                frame_time,
                start,
                config,
            ),
    ensures
        packets.map_values(|p: RtpPacket| p.payload@) == chunks,
        forall|i: int|
            0 <= i < packets.len() ==> ((#[trigger] packets[i]).marker == 1 <==> i == packets.len()
                - 1),
        start + packets.len() <= u64::MAX ==> forall|i: int|
            0 <= i < packets.len() ==> (#[trigger] packets[i]).sequence_number == start + i,
{
    assert(packets.map_values(|p: RtpPacket| p.payload@) =~= chunks);
}

/// The packet fields of the audio stream that come from the media
/// configuration.
pub struct AudioStreamConfig {
    pub rtp_version: u8,
    pub audio_payload_type: u8,
    pub audio_ssrc: u32,
}

/// Builds the single packet that carries one encoded audio frame and
/// advances the sequence number (saturating).
pub fn audio_packet(
    payload: Vec<u8>,
    timestamp: u128,
    sequence_number: &mut u64,
    config: &AudioStreamConfig,
) -> (p: RtpPacket)
    ensures
        p.version == config.rtp_version,
        p.marker == 1,
        p.total_chunks == 1,
        !p.is_i_frame,
        p.payload_type == config.audio_payload_type,
        p.sequence_number == *old(sequence_number),
        p.timestamp == timestamp,
        p.ssrc == config.audio_ssrc,
        p.payload@ == payload@,
        *final(sequence_number) == seq_after(*old(sequence_number), 1),
{
    let packet = RtpPacket {
        version: config.rtp_version,
        marker: 1,
        total_chunks: 1,
        is_i_frame: false,
        sequence_number: *sequence_number,
        payload_type: config.audio_payload_type,
        timestamp,
        ssrc: config.audio_ssrc,
        payload,
    };
    *sequence_number = sequence_number.saturating_add(1);
    packet
}

/// Where a received packet goes.
#[derive(Debug, Clone, Copy, PartialEq, Eq, Structural)]
pub enum PacketRoute {
    Video,
    Audio,
    Discard,
}

/// The route of a received packet: the video payload type goes to the
/// video receiver (also when it equals the audio one), the audio payload
/// type to the audio receiver, and any other packet is discarded.
pub fn route_packet(payload_type: u8, video_payload_type: u8, audio_payload_type: u8) -> (r:
    PacketRoute)
    ensures
        payload_type == video_payload_type ==> r == PacketRoute::Video,
        payload_type != video_payload_type && payload_type == audio_payload_type ==> r
            == PacketRoute::Audio,
        payload_type != video_payload_type && payload_type != audio_payload_type ==> r
            == PacketRoute::Discard,
{
    if payload_type == video_payload_type {
        PacketRoute::Video
    } else if payload_type == audio_payload_type {
        PacketRoute::Audio
    } else {
        PacketRoute::Discard
    }
}

} // verus!
