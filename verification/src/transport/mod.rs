pub mod rtp;
