use crate::wire::{
    be16, be32, from_be16, from_be32, lemma_be16_decode, lemma_be16_encode, lemma_be32_decode,
    lemma_be32_encode, push_all, push_be16, push_be32, read_be16, read_be32,
};
use vstd::prelude::*;
use vstd::slice::slice_to_vec;

verus! {

/// A standard-header RTP package: a 12-byte header (version and marker bits,
/// payload type, sequence number, timestamp, SSRC) followed by the payload.
#[derive(Debug, Clone)]
pub struct RtpPackage {
    pub version: u8,
    pub marker: bool,
    pub payload_type: u8,
    pub sequence_number: u16,
    pub timestamp: u32,
    pub ssrc: u32,
    pub payload: Vec<u8>,
}

/// The abstract content of an [`RtpPackage`].
pub ghost struct RtpPackageView {
    pub version: u8,
    pub marker: bool,
    pub payload_type: u8,
    pub sequence_number: u16,
    pub timestamp: u32,
    pub ssrc: u32,
    pub payload: Seq<u8>,
}

impl View for RtpPackage {
    type V = RtpPackageView;

    open spec fn view(&self) -> RtpPackageView {
        RtpPackageView {
            version: self.version,
            marker: self.marker,
            payload_type: self.payload_type,
            sequence_number: self.sequence_number,
            timestamp: self.timestamp,
            ssrc: self.ssrc,
            payload: self.payload@,
        }
    }
}

/// First header byte: the version shifted into the two top bits, with the
/// marker flag or-ed into the top bit.
pub open spec fn first_header_byte(version: u8, marker: bool) -> u8 {
    (version << 6u8) | ((if marker { 1u8 } else { 0u8 }) << 7u8)
}

/// Wire layout of a package.
pub open spec fn rtp_package_bytes(p: RtpPackageView) -> Seq<u8> {
    seq![first_header_byte(p.version, p.marker), p.payload_type] + be16(p.sequence_number) + be32(
        p.timestamp,
    ) + be32(p.ssrc) + p.payload
}

/// Decoding of the wire layout: `None` when shorter than the 12-byte header.
pub open spec fn rtp_package_parse(data: Seq<u8>) -> Option<RtpPackageView> {
    if data.len() < 12 {
        None
    } else {
        Some(
            RtpPackageView {
                version: data[0] >> 6u8,
                marker: (data[0] & 0x80u8) != 0,
                payload_type: data[1],
                sequence_number: from_be16(data, 2),
                timestamp: from_be32(data, 4),
                ssrc: from_be32(data, 8),
                payload: data.subrange(12, data.len() as int),
            },
        )
    }
}

impl RtpPackage {
    /// Creates a version-2 package with the given header fields and payload.
    pub fn new(
        marker: bool,
        payload_type: u8,
        payload: Vec<u8>,
        timestamp: u32,
        sequence_number: u16,
        ssrc: u32,
    ) -> (r: Self)
        ensures
            r@ == (RtpPackageView {
                version: 2,
                marker,
                payload_type,
                sequence_number,
                timestamp,
                ssrc,
                payload: payload@,
            }),
    {
        Self { version: 2, marker, payload_type, sequence_number, timestamp, ssrc, payload }
    }

    /// Encodes the package in its wire layout.
    pub fn to_bytes(&self) -> (r: Vec<u8>)
        ensures
            r@ == rtp_package_bytes(self@),
    {
        let mut buf: Vec<u8> = Vec::with_capacity(12);
        let m: u8 = if self.marker {
            1
        } else {
            0
        };
        let b0: u8 = (self.version << 6u8) | (m << 7u8);
        buf.push(b0);
        buf.push(self.payload_type);
        push_be16(&mut buf, self.sequence_number);
        push_be32(&mut buf, self.timestamp);
        push_be32(&mut buf, self.ssrc);
        push_all(&mut buf, self.payload.as_slice());
        assert(buf@ =~= rtp_package_bytes(self@));
        buf
    }

    /// Decodes a package; `None` when `data` is shorter than the header.
    pub fn from_bytes(data: &[u8]) -> (r: Option<Self>)
        ensures
            r is Some <==> data@.len() >= 12,
            r matches Some(p) ==> rtp_package_parse(data@) == Some(p@),
    {
        if data.len() < 12 {
            return None;
        }
        let version = data[0] >> 6u8;
        let marker = (data[0] & 0x80u8) != 0;
        let payload_type = data[1];
        let sequence_number = read_be16(data, 2);
        let timestamp = read_be32(data, 4);
        let ssrc = read_be32(data, 8);
        let payload = slice_to_vec(&data[12..data.len()]);
        Some(Self { version, marker, payload_type, sequence_number, timestamp, ssrc, payload })
    }
}

/// Decoding the bytes of a package gives it back exactly when its version
/// fits the two version bits and its marker agrees with the top version bit
/// (the two share the top bit of the first byte); for the version-2 packages
/// that `new` makes, exactly when the marker is set.
pub proof fn lemma_rtp_package_roundtrip(p: RtpPackageView)
    ensures
        rtp_package_parse(rtp_package_bytes(p)) == Some(p) <==> (p.version < 4 && (p.marker
            <==> p.version >= 2)),
{
    let b = rtp_package_bytes(p);
    let v = p.version;
    let m: u8 = if p.marker {
        1u8
    } else {
        0u8
    };
    let b0 = (v << 6u8) | (m << 7u8);
    assert(b[0] == b0);
    assert(m <= 1 ==> (((b0 >> 6u8) == v) && (((b0 & 0x80u8) != 0) == (m == 1)) <==> (v < 4 && ((
    m == 1) <==> v >= 2)))) by (bit_vector)
        requires
            b0 == (v << 6u8) | (m << 7u8),
    ;
    assert(b.subrange(2, 4) =~= be16(p.sequence_number));
    assert(b.subrange(4, 8) =~= be32(p.timestamp));
    assert(b.subrange(8, 12) =~= be32(p.ssrc));
    lemma_be16_decode(p.sequence_number, b, 2);
    lemma_be32_decode(p.timestamp, b, 4);
    lemma_be32_decode(p.ssrc, b, 8);
    assert(b.subrange(12, b.len() as int) =~= p.payload);
}

/// Encoding a decoded package gives back its bytes exactly when the six low
/// bits of the first byte are clear (they are not kept by the decoding).
pub proof fn lemma_rtp_package_reencode(data: Seq<u8>)
    requires
        data.len() >= 12,
    ensures
        rtp_package_bytes(rtp_package_parse(data).unwrap()) == data <==> data[0] & 0x3fu8 == 0,
{
    let d = data[0];
    let v = d >> 6u8;
    let mk = (d & 0x80u8) != 0;
    let m: u8 = if mk {
        1u8
    } else {
        0u8
    };
    assert(((v << 6u8) | (m << 7u8) == d) <==> d & 0x3fu8 == 0) by (bit_vector)
        requires
            v == d >> 6u8,
            m == (if (d & 0x80u8) != 0 {
                1u8
            } else {
                0u8
            }),
    ;
    lemma_be16_encode(data, 2);
    lemma_be32_encode(data, 4);
    lemma_be32_encode(data, 8);
    let e = rtp_package_bytes(rtp_package_parse(data).unwrap());
    assert(e[0] == first_header_byte(v, mk));
    if d & 0x3fu8 == 0 {
        assert(e =~= data);
    } else {
        assert(e[0] != data[0]);
    }
}

} // verus!
