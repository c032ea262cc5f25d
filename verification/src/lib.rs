pub mod text;
pub mod json;
pub mod datamap;
pub mod types;
pub mod bridge;
pub mod foreign;
pub mod state;
pub mod onebot;
pub mod config;
pub mod milky;
pub mod cli;
