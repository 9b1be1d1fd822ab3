use vstd::prelude::*;

verus! {

/// Errors of audio capture, encoding and decoding.
#[derive(Debug)]
pub enum AudioError {
    InputDeviceError,
    MapError(String),
    EncoderInitializationError,
    EncodingError(String),
    DecoderInitializationError,
    DecodingError(String),
}

impl AudioError {
    /// The human-readable message of this error.
    pub open spec fn message(&self) -> Seq<char> {
        match self {
            AudioError::InputDeviceError => "Error: no input device available"@,
            AudioError::MapError(e) => "Error: "@ + e@,
            AudioError::EncoderInitializationError => "Error: failed to initialize microphone encoder"@,
            AudioError::EncodingError(e) => "Error: failed to encode microphone file ("@ + e@ + ")"@,
            AudioError::DecoderInitializationError => "Error: failed to initialize microphone decoder"@,
            AudioError::DecodingError(e) => "Error: failed to decode microphone file ("@ + e@ + ")"@,
        }
    }

    /// Formats the error as a human-readable message.
    pub fn to_string(&self) -> (r: String)
        ensures
            r@ == self.message(),
    {
        match self {
            AudioError::InputDeviceError => String::from_str("Error: no input device available"),
            AudioError::MapError(e) => String::from_str("Error: ").concat(e.as_str()),
            AudioError::EncoderInitializationError => String::from_str(
                "Error: failed to initialize microphone encoder",
            ),
            AudioError::EncodingError(e) => String::from_str(
                "Error: failed to encode microphone file (",
            ).concat(e.as_str()).concat(")"),
            AudioError::DecoderInitializationError => String::from_str(
                "Error: failed to initialize microphone decoder",
            ),
            AudioError::DecodingError(e) => String::from_str(
                "Error: failed to decode microphone file (",
            ).concat(e.as_str()).concat(")"),
        }
    }
}

} // verus!
