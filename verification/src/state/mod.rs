pub mod message_map;
pub mod request_map;
pub mod runtime;
