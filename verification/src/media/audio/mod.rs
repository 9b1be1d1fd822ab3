pub mod error;
pub mod ring_buffer;
