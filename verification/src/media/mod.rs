pub mod audio;
pub mod camera;
pub mod error;
pub mod frame_handler;
pub mod media_pipeline;
