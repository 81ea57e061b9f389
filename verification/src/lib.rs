//! Relay and server logic of a post-quantum VPN.

pub mod assoc;
pub mod be;
pub mod byte_size;
pub mod io_error;
pub mod hash_keys;
pub mod ip_map;
pub mod log_file;
pub mod model;
pub mod net;
pub mod pair_map;
pub mod parse;
pub mod privacy;
pub mod relay;
pub mod rounding;
pub mod server;
pub mod text;
pub mod time;
pub mod wire;
