pub mod error;
pub mod key;
pub mod sdp_errors;
pub mod attribute;
pub mod attribute_roundtrip;
pub mod media_description;
pub mod session_description;
pub mod description_roundtrip;
pub mod answer_laws;
