//! The relay: forwards packets between clients and one upstream.

pub mod batch;
pub mod config;
pub mod data_plane;
pub mod error;
pub mod forward;
pub mod handshake_limiter;
pub mod http;
pub mod metrics;
pub mod rate_limiter;
pub mod server;
pub mod session;
pub mod session_laws;
pub mod session_manager;
pub mod stats;
