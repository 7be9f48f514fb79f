//! A pastebin: text snippets with expiry, burn-after-read and a size limit.

pub mod api;
pub mod application;
pub mod config;
pub mod domain;
pub mod infrastructure;
pub mod metrics;
pub mod views;

pub use crate::cache;
pub use crate::error;
pub use crate::error::AppError;
pub use crate::rate_limit;
pub use config::Config;
