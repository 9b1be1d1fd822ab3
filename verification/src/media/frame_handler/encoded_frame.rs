use vstd::prelude::*;

verus! {

/// A container for an encoded video frame.
///
/// `EncodedFrame` holds the compressed frame bytes split into chunks, the
/// intended decoded dimensions, whether it is an intra frame and when it
/// was captured.
pub struct EncodedFrame {
    /// The compressed frame split into one or more chunks.
    pub chunks: Vec<Vec<u8>>,
    /// Frame width in pixels (decoded size).
    pub width: usize,
    /// Frame height in pixels (decoded size).
    pub height: usize,
    /// Whether the encoded frame is an intra frame.
    pub is_i_frame: bool,
    /// Capture time of the frame.
    pub frame_time: u128,
}

} // verus!
