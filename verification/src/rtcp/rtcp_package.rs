use crate::rtcp::rtcp_packet::bytes_equal;
use vstd::prelude::*;

verus! {

/// The two control messages of the report-only RTCP exchange: periodic
/// connectivity reports and a goodbye on close.
#[derive(PartialEq, Eq, Debug, Clone, Copy, Structural)]
pub enum RTCPPackage {
    ConnectivityReport,
    Goodbye,
}

/// The bytes that stand for each package: the ASCII texts `CR` and `BY`.
pub open spec fn rtcp_package_bytes(p: RTCPPackage) -> Seq<u8> {
    match p {
        RTCPPackage::ConnectivityReport => seq![67u8, 82u8],
        RTCPPackage::Goodbye => seq![66u8, 89u8],
    }
}

/// Decoding: the package whose bytes are exactly `data`, if any.
pub open spec fn rtcp_package_parse(data: Seq<u8>) -> Option<RTCPPackage> {
    if data == rtcp_package_bytes(RTCPPackage::ConnectivityReport) {
        Some(RTCPPackage::ConnectivityReport)
    } else if data == rtcp_package_bytes(RTCPPackage::Goodbye) {
        Some(RTCPPackage::Goodbye)
    } else {
        None
    }
}

impl RTCPPackage {
    /// The wire bytes of this package.
    pub fn as_bytes(&self) -> (r: &'static [u8])
        ensures
            r@ == rtcp_package_bytes(*self),
    {
        match self {
            RTCPPackage::ConnectivityReport => &[67u8, 82u8],
            RTCPPackage::Goodbye => &[66u8, 89u8],
        }
    }

    /// The package whose bytes are exactly `data`, or `None`.
    pub fn from_bytes(data: &[u8]) -> (r: Option<Self>)
        ensures
            r == rtcp_package_parse(data@),
    {
        if bytes_equal(data, RTCPPackage::ConnectivityReport.as_bytes()) {
            Some(RTCPPackage::ConnectivityReport)
        } else if bytes_equal(data, RTCPPackage::Goodbye.as_bytes()) {
            Some(RTCPPackage::Goodbye)
        } else {
            None
        }
    }

    /// The short name of the package (`CR` or `BYE`).
    pub fn to_string(&self) -> (r: String)
        ensures
            r@ == (match *self {
                RTCPPackage::ConnectivityReport => "CR"@,
                RTCPPackage::Goodbye => "BYE"@,
            }),
    {
        match self {
            RTCPPackage::ConnectivityReport => String::from_str("CR"),
            RTCPPackage::Goodbye => String::from_str("BYE"),
        }
    }
}

/// Every package is decoded back from its own bytes.
pub proof fn lemma_rtcp_package_roundtrip(p: RTCPPackage)
    ensures
        rtcp_package_parse(rtcp_package_bytes(p)) == Some(p),
{
    assert(rtcp_package_bytes(RTCPPackage::ConnectivityReport)[0] != rtcp_package_bytes(
        RTCPPackage::Goodbye,
    )[0]);
}

} // verus!
