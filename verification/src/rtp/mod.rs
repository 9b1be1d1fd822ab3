pub mod connection_status;
pub mod error;
pub mod rtp_package;
pub mod rtp_packet;

pub use self::connection_status::ConnectionStatus;
pub use self::error::RtpError;
pub use self::rtp_package::RtpPackage;
pub use self::rtp_packet::RtpPacket;
pub mod receiver;
pub mod sender;
