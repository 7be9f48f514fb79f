//! Verified core of three small network services: a URL shortener, a pastebin
//! and a TCP server that speaks a subset of HTTP/1.1.

pub mod cache;
pub mod clock;
pub mod count_batch;
pub mod counter;
pub mod env;
pub mod error;
pub mod net;
pub mod pastebin;
pub mod rate_limit;
pub mod shortener;
pub mod tcp_server;
pub mod text;
pub mod token;
pub mod web;
