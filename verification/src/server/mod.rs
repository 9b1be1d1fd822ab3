pub mod error;
pub mod user;
pub mod protocol;
pub mod operating_server;
pub mod user_handler;
pub mod central_server;
