pub mod api;
pub mod event;
pub mod server;
