pub mod data_channel;
pub mod error;

pub use self::error::SCTPTransportError;
