//! Verified core of a peer-to-peer video calling stack: the RTP, RTCP and
//! DCEP wire formats, SDP offer/answer handling and the signalling server's
//! user and call state.
pub mod wire;
pub mod rtp;
pub mod rtcp;
pub mod sctp_transport;
pub mod text;
pub mod number;
pub mod config;
pub mod ice;
pub mod sdp;
pub mod server;
pub mod media;
pub mod transport;
