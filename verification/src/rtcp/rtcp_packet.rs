use vstd::prelude::*;

verus! {

/// Control messages exchanged next to the media stream: periodic
/// connectivity reports, a goodbye on close, and the two-step
/// `Hello`/`Ready` handshake that opens a session.
#[derive(PartialEq, Eq, Debug, Clone, Copy, Structural)]
pub enum RtcpPacket {
    ConnectivityReport,
    Goodbye,
    Hello,
    Ready,
}

/// The bytes that stand for each packet on the wire: the ASCII texts
/// `CR`, `BY`, `HELLO` and `READY`.
pub open spec fn rtcp_packet_bytes(p: RtcpPacket) -> Seq<u8> {
    match p {
        RtcpPacket::ConnectivityReport => seq![67u8, 82u8],
        RtcpPacket::Goodbye => seq![66u8, 89u8],
        RtcpPacket::Hello => seq![72u8, 69u8, 76u8, 76u8, 79u8],
        RtcpPacket::Ready => seq![82u8, 69u8, 65u8, 68u8, 89u8],
    }
}

/// Decoding: the packet whose bytes are exactly `data`, if any.
pub open spec fn rtcp_packet_parse(data: Seq<u8>) -> Option<RtcpPacket> {
    if data == rtcp_packet_bytes(RtcpPacket::ConnectivityReport) {
        Some(RtcpPacket::ConnectivityReport)
    } else if data == rtcp_packet_bytes(RtcpPacket::Goodbye) {
        Some(RtcpPacket::Goodbye)
    } else if data == rtcp_packet_bytes(RtcpPacket::Hello) {
        Some(RtcpPacket::Hello)
    } else if data == rtcp_packet_bytes(RtcpPacket::Ready) {
        Some(RtcpPacket::Ready)
    } else {
        None
    }
}

/// Compares two byte slices for equality.
pub fn bytes_equal(a: &[u8], b: &[u8]) -> (r: bool)
    ensures
        r == (a@ == b@),
{
    if a.len() != b.len() {
        return false;
    }
    let mut i: usize = 0;
    while i < a.len()
        invariant
            a@.len() == b@.len(),
            i <= a@.len(),
            forall|j: int| 0 <= j < i ==> a@[j] == b@[j],
        decreases a@.len() - i,
    {
        if a[i] != b[i] {
            return false;
        }
        i = i + 1;
    }
    assert(a@ =~= b@);
    true
}

impl RtcpPacket {
    /// The wire bytes of this packet.
    pub fn as_bytes(&self) -> (r: &'static [u8])
        ensures
            r@ == rtcp_packet_bytes(*self),
    {
        match self {
            RtcpPacket::ConnectivityReport => &[67u8, 82u8],
            RtcpPacket::Goodbye => &[66u8, 89u8],
            RtcpPacket::Hello => &[72u8, 69u8, 76u8, 76u8, 79u8],
            RtcpPacket::Ready => &[82u8, 69u8, 65u8, 68u8, 89u8],
        }
    }

    /// The packet whose bytes are exactly `data`, or `None`.
    pub fn from_bytes(data: &[u8]) -> (r: Option<Self>)
        ensures
            r == rtcp_packet_parse(data@),
    {
        if bytes_equal(data, RtcpPacket::ConnectivityReport.as_bytes()) {
            Some(RtcpPacket::ConnectivityReport)
        } else if bytes_equal(data, RtcpPacket::Goodbye.as_bytes()) {
            Some(RtcpPacket::Goodbye)
        } else if bytes_equal(data, RtcpPacket::Hello.as_bytes()) {
            Some(RtcpPacket::Hello)
        } else if bytes_equal(data, RtcpPacket::Ready.as_bytes()) {
            Some(RtcpPacket::Ready)
        } else {
            None
        }
    }

    /// The short name of the packet (`CR`, `BYE`, `HELLO`, `READY`).
    pub fn to_string(&self) -> (r: String)
        ensures
            r@ == (match *self {
                RtcpPacket::ConnectivityReport => "CR"@,
                RtcpPacket::Goodbye => "BYE"@,
                RtcpPacket::Hello => "HELLO"@,
                RtcpPacket::Ready => "READY"@,
            }),
    {
        match self {
            RtcpPacket::ConnectivityReport => String::from_str("CR"),
            RtcpPacket::Goodbye => String::from_str("BYE"),
            RtcpPacket::Hello => String::from_str("HELLO"),
            RtcpPacket::Ready => String::from_str("READY"),
        }
    }
}

/// Every packet is decoded back from its own bytes.
pub proof fn lemma_rtcp_packet_roundtrip(p: RtcpPacket)
    ensures
        rtcp_packet_parse(rtcp_packet_bytes(p)) == Some(p),
{
    let cr = rtcp_packet_bytes(RtcpPacket::ConnectivityReport);
    let by = rtcp_packet_bytes(RtcpPacket::Goodbye);
    let he = rtcp_packet_bytes(RtcpPacket::Hello);
    let re = rtcp_packet_bytes(RtcpPacket::Ready);
    assert(cr != by && cr[0] != he[0] && cr.len() != re.len());
    assert(by.len() != he.len() && by.len() != re.len() && he[0] != re[0]);
}

/// Two distinct packets never share their bytes.
pub proof fn lemma_rtcp_packet_bytes_distinct(p: RtcpPacket, q: RtcpPacket)
    requires
        p != q,
    ensures
        rtcp_packet_bytes(p) != rtcp_packet_bytes(q),
{
    lemma_rtcp_packet_roundtrip(p);
    lemma_rtcp_packet_roundtrip(q);
}

} // verus!
