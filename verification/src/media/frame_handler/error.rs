use vstd::prelude::*;

verus! {

/// Errors of the video frame handling: encoding, decoding and the frame
/// layout.
#[derive(Debug)]
pub enum FrameError {
    /// A frame dimension does not fit in the 32 bits of the frame layout.
    DimensionConversionError,
    /// The encoder could not be created.
    EncoderInitializationError,
    /// Encoding a frame failed.
    EncodingError(String),
    /// The decoder could not be created.
    DecoderInitializationError,
    /// The data held no complete frame.
    EmptyFrameError,
    /// Decoding failed.
    DecodingError(String),
}

} // verus!
