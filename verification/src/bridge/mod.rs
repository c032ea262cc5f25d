pub mod message_ir;
pub mod translator;
pub mod service;
pub mod cq_escape;
pub mod round_trip;
