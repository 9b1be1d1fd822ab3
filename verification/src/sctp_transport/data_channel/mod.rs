pub mod data_channel;
pub mod dc_type;
pub mod dcep;
pub mod error;

pub use self::data_channel::{ack_timed_out, open_timed_out};
pub use self::dc_type::DataChannelType;
pub use self::dcep::DCEPMessage;
pub use self::error::DataChannelError;
