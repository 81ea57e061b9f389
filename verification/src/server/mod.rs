//! The server: terminates tunnels.

pub mod addresses;
pub mod admin;
pub mod afxdp_workers;
pub mod auth_lockout;
pub mod auto_tune;
pub mod config;
pub mod error;
pub mod handshake_replay;
pub mod io_uring_udp;
pub mod keys;
pub mod metrics;
pub mod nat_rules;
pub mod privileges;
pub mod rate_limit;
pub mod routing;
pub mod startup;
pub mod users;
pub mod validation;
