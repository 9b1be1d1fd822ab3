use crate::wire::{
    be16, be32, be64, from_be16, from_be32, from_be64, lemma_be16_decode, lemma_be16_encode,
    lemma_be32_decode, lemma_be32_encode, lemma_be64_decode, lemma_be64_encode, push_all,
    push_be16, push_be32, push_be64, read_be16, read_be32, read_be64,
};
use vstd::prelude::*;
use vstd::slice::slice_to_vec;

verus! {

/// Length of the fixed header that precedes the payload on the wire.
pub const RTP_HEADER_LEN: usize = 28;

/// RTP packet used by the project transport layer.
///
/// This struct models a simplified RTP-like packet used on top of the
/// project's UDP sockets. The packet uses a custom binary layout
/// that packs a small header followed by payload
/// bytes.
#[derive(Debug, Clone, Default)]
pub struct RtpPacket {
    /// Packet format version.
    pub version: u8,
    /// Marker/total-chunks field used by the application.
    pub marker: u16,
    /// Payload type.
    pub payload_type: u8,
    /// Logical frame identifier for the packet's media frame.
    pub frame_id: u64,
    /// Chunk identifier within the frame.
    pub chunk_id: u64,
    /// Timestamp associated with the sample/frame.
    pub timestamp: u32,
    /// SSRC (synchronization source) identifier.
    pub ssrc: u32,
    /// Payload bytes of the packet.
    pub payload: Vec<u8>,
}

/// The abstract content of an [`RtpPacket`].
pub ghost struct RtpPacketView {
    pub version: u8,
    pub marker: u16,
    pub payload_type: u8,
    pub frame_id: u64,
    pub chunk_id: u64,
    pub timestamp: u32,
    pub ssrc: u32,
    pub payload: Seq<u8>,
}

impl View for RtpPacket {
    type V = RtpPacketView;

    open spec fn view(&self) -> RtpPacketView {
        RtpPacketView {
            version: self.version,
            marker: self.marker,
            payload_type: self.payload_type,
            frame_id: self.frame_id,
            chunk_id: self.chunk_id,
            timestamp: self.timestamp,
            ssrc: self.ssrc,
            payload: self.payload@,
        }
    }
}

/// Wire layout of a packet: version, payload type, frame id, chunk id,
/// timestamp, marker and SSRC in network byte order, then the payload.
pub open spec fn rtp_packet_bytes(p: RtpPacketView) -> Seq<u8> {
    seq![p.version, p.payload_type] + be64(p.frame_id) + be64(p.chunk_id) + be32(p.timestamp)
        + be16(p.marker) + be32(p.ssrc) + p.payload
}

/// Decoding of the wire layout: `None` when the input is shorter than the
/// header, otherwise the header fields and the remaining bytes as payload.
pub open spec fn rtp_packet_parse(data: Seq<u8>) -> Option<RtpPacketView> {
    if data.len() < 28 {
        None
    } else {
        Some(
            RtpPacketView {
                version: data[0],
                payload_type: data[1],
                frame_id: from_be64(data, 2),
                chunk_id: from_be64(data, 10),
                timestamp: from_be32(data, 18),
                marker: from_be16(data, 22),
                ssrc: from_be32(data, 24),
                payload: data.subrange(28, data.len() as int),
            },
        )
    }
}

impl RtpPacket {
    /// Create a new `RtpPacket` with the supplied fields.
    ///
    /// This constructor uses the provided version and stores all the
    /// provided values. No network encoding is performed at this stage.
    pub fn new(
        version: u8,
        marker: u16,
        payload_type: u8,
        payload: Vec<u8>,
        timestamp: u32,
        frame_id: u64,
        chunk_id: u64,
        ssrc: u32,
    ) -> (r: Self)
        ensures
            r@ == (RtpPacketView {
                version,
                marker,
                payload_type,
                frame_id,
                chunk_id,
                timestamp,
                ssrc,
                payload: payload@,
            }),
    {
        Self { version, marker, payload_type, frame_id, chunk_id, timestamp, ssrc, payload }
    }

    /// Encode the packet into a sequence of bytes suitable for sending
    /// over the network.
    pub fn to_bytes(&self) -> (r: Vec<u8>)
        ensures
            r@ == rtp_packet_bytes(self@),
    {
        let mut buf: Vec<u8> = Vec::with_capacity(26);
        buf.push(self.version);
        buf.push(self.payload_type);
        push_be64(&mut buf, self.frame_id);
        push_be64(&mut buf, self.chunk_id);
        push_be32(&mut buf, self.timestamp);
        push_be16(&mut buf, self.marker);
        push_be32(&mut buf, self.ssrc);
        push_all(&mut buf, self.payload.as_slice());
        assert(buf@ =~= rtp_packet_bytes(self@));
        buf
    }

    /// Decode an `RtpPacket` from a byte slice previously produced by
    /// `to_bytes`. Returns `None` if the slice is too short.
    pub fn from_bytes(data: &[u8]) -> (r: Option<Self>)
        ensures
            r is Some <==> data@.len() >= 28,
            r matches Some(p) ==> rtp_packet_parse(data@) == Some(p@),
    {
        if data.len() < RTP_HEADER_LEN {
            return None;
        }
        let version = data[0];
        let payload_type = data[1];
        let frame_id = u64_from_be(array_from_slice::<8>(&data[2..10]));
        let chunk_id = u64_from_be(array_from_slice::<8>(&data[10..18]));
        let timestamp = u32_from_be(array_from_slice::<4>(&data[18..22]));
        let total_chunks = u16_from_be(array_from_slice::<2>(&data[22..24]));
        let ssrc = u32_from_be(array_from_slice::<4>(&data[24..28]));
        let payload = slice_to_vec(&data[28..data.len()]);
        proof {
            assert(data@.subrange(2, 10) =~= data@.subrange(2, 10));
        }
        let p = Self {
            version,
            payload_type,
            frame_id,
            chunk_id,
            timestamp,
            marker: total_chunks,
            ssrc,
            payload,
        };
        proof {
            assert(from_be64(data@.subrange(2, 10), 0) == from_be64(data@, 2));
            assert(from_be64(data@.subrange(10, 18), 0) == from_be64(data@, 10));
            assert(from_be32(data@.subrange(18, 22), 0) == from_be32(data@, 18));
            assert(from_be16(data@.subrange(22, 24), 0) == from_be16(data@, 22));
            assert(from_be32(data@.subrange(24, 28), 0) == from_be32(data@, 24));
        }
        Some(p)
    }
}

/// Helper: copy `N` bytes from the slice into a fixed-size array.
pub fn array_from_slice<const N: usize>(slice: &[u8]) -> (arr: [u8; N])
    requires
        N <= slice@.len(),
    ensures
        arr@ == slice@.subrange(0, N as int),
{
    let mut arr = [0u8; N];
    let mut i: usize = 0;
    while i < N
        invariant
            N <= slice@.len(),
            i <= N,
            arr@.len() == N,
            forall|j: int| 0 <= j < i ==> arr@[j] == slice@[j],
        decreases N - i,
    {
        arr[i] = slice[i];
        i = i + 1;
    }
    assert(arr@ =~= slice@.subrange(0, N as int));
    arr
}

fn u64_from_be(b: [u8; 8]) -> (r: u64)
    ensures
        r == from_be64(b@, 0),
{
    read_be64(b.as_slice(), 0)
}

fn u32_from_be(b: [u8; 4]) -> (r: u32)
    ensures
        r == from_be32(b@, 0),
{
    read_be32(b.as_slice(), 0)
}

fn u16_from_be(b: [u8; 2]) -> (r: u16)
    ensures
        r == from_be16(b@, 0),
{
    read_be16(b.as_slice(), 0)
}

/// Decoding the bytes of a packet gives back the packet.
pub proof fn lemma_rtp_packet_roundtrip(p: RtpPacketView)
    ensures
        rtp_packet_parse(rtp_packet_bytes(p)) == Some(p),
{
    let b = rtp_packet_bytes(p);
    assert(b.subrange(2, 10) =~= be64(p.frame_id));
    assert(b.subrange(10, 18) =~= be64(p.chunk_id));
    assert(b.subrange(18, 22) =~= be32(p.timestamp));
    assert(b.subrange(22, 24) =~= be16(p.marker));
    assert(b.subrange(24, 28) =~= be32(p.ssrc));
    lemma_be64_decode(p.frame_id, b, 2);
    lemma_be64_decode(p.chunk_id, b, 10);
    lemma_be32_decode(p.timestamp, b, 18);
    lemma_be16_decode(p.marker, b, 22);
    lemma_be32_decode(p.ssrc, b, 24);
    assert(b.subrange(28, b.len() as int) =~= p.payload);
}

/// Encoding a decoded packet gives back the bytes it was decoded from.
pub proof fn lemma_rtp_packet_reencode(data: Seq<u8>)
    requires
        data.len() >= 28,
    ensures
        rtp_packet_bytes(rtp_packet_parse(data).unwrap()) == data,
{
    lemma_be64_encode(data, 2);
    lemma_be64_encode(data, 10);
    lemma_be32_encode(data, 18);
    lemma_be16_encode(data, 22);
    lemma_be32_encode(data, 24);
    assert(rtp_packet_bytes(rtp_packet_parse(data).unwrap()) =~= data);
}

} // verus!
