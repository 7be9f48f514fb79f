//! A TCP server that answers a small HTTP/1.1 subset.

pub mod config;
pub mod connection;
pub mod error;
pub mod http;
pub mod metrics;
pub mod registry;
pub mod server;

pub use config::Config;
pub use error::ServerError;
