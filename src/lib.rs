//! Cache identity and request-handling logic of a caching reverse proxy.

pub mod cache;
pub mod cache_control;
pub mod config;
pub mod error;
pub mod proxy;
pub mod request;
pub mod response;
pub mod text;
