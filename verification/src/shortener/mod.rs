//! A URL shortener: links under short codes, with aliases, expiry, hit counts and
//! a host denylist.

pub mod api;
pub mod application;
pub mod config;
pub mod domain;
pub mod hits;
pub mod infrastructure;
pub mod metrics;

pub use crate::cache;
pub use crate::error;
pub use crate::error::AppError;
pub use crate::rate_limit;
pub use config::Config;
