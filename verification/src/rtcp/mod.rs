pub mod error;
pub mod report_handler;
pub mod rtcp_package;
pub mod rtcp_packet;

pub use self::error::RtcpError;
pub use self::rtcp_package::RTCPPackage;
pub use self::rtcp_packet::RtcpPacket;
