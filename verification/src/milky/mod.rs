pub mod error;
pub mod model;
pub mod segments;
pub mod events;
pub mod client;
