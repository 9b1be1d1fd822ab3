use vstd::prelude::*;

verus! {

/// Errors that can occur during camera operations.
///
/// This enum represents various failures that may occur when initializing,
/// configuring, or capturing frames from a camera device.
#[derive(Debug)]
pub enum CameraError {
    /// A poisoned mutex or RwLock was encountered.
    PoisonedLock,
    /// Camera device index is invalid or out of range.
    IndexError,
    /// Failed to open the camera device with error details.
    OpenError(String),
    /// Camera is closed or not available.
    ClosedCamera,
    /// Failed to set camera configuration (resolution, FPS, etc.).
    CameraConfigFailed,
}

impl CameraError {
    /// The human-readable message of this error.
    pub open spec fn message(&self) -> Seq<char> {
        match self {
            CameraError::PoisonedLock => "Error: \"Poisoned lock\""@,
            CameraError::IndexError => "Error: \"Device index is too large\""@,
            CameraError::OpenError(e) => "Error: \"Failed to open camera\": "@ + e@,
            CameraError::ClosedCamera => "Error: \"Camera is closed\""@,
            CameraError::CameraConfigFailed => "Error: \"Failed to set camera configuration\""@,
        }
    }

    /// Formats the error as a human-readable message.
    pub fn to_string(&self) -> (r: String)
        ensures
            r@ == self.message(),
    {
        match self {
            CameraError::PoisonedLock => String::from_str("Error: \"Poisoned lock\""),
            CameraError::IndexError => String::from_str("Error: \"Device index is too large\""),
            CameraError::OpenError(e) => String::from_str(
                "Error: \"Failed to open camera\": ",
            ).concat(e.as_str()),
            CameraError::ClosedCamera => String::from_str("Error: \"Camera is closed\""),
            CameraError::CameraConfigFailed => String::from_str(
                "Error: \"Failed to set camera configuration\"",
            ),
        }
    }
}

} // verus!
