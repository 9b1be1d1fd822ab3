pub mod encoded_frame;
pub mod encoder;
pub mod error;
pub mod frame;
pub mod color_space;
pub mod decoder;
