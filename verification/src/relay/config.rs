//! Relay configuration.

use crate::log_file::{LogSettings, file_settings, names_file};
use crate::net::{IpAddr, SocketAddr, socket_text};
use crate::relay::error::{RelayError, RelayResult};
use crate::text::{decimal, push_decimal, trim, trimmed};
use crate::time::Duration;
use vstd::prelude::*;
use vstd::utf8::encode_utf8;

verus! {

/// Maximum config file size (1 MB).
pub const MAX_CONFIG_FILE_SIZE: u64 = 1024 * 1024;

/// Fewest bytes of a bearer token that protects an exposed metrics endpoint.
pub const MIN_METRICS_TOKEN_LEN: usize = 16;

/// Relay server configuration.
#[derive(Clone, Debug)]
pub struct RelayConfig {
    /// Listen address for incoming client connections.
    pub listen_addr: SocketAddr,
    /// Upstream server/relay address to forward packets to.
    pub upstream_addr: SocketAddr,
    /// Maximum number of concurrent sessions.
    pub max_sessions: usize,
    /// Session timeout in seconds (idle sessions are cleaned up).
    pub session_timeout_secs: u64,
    /// Buffer size for UDP packets.
    pub buffer_size: usize,
    /// Enable relay logging output.
    pub log_enabled: bool,
    /// Path to log file (optional). When set, logs are written to file + stdout.
    pub log_file: Option<String>,
    /// Maximum log file size in MB before rotation.
    pub log_max_size_mb: u64,
    /// Maximum number of rotated log files to keep.
    pub log_max_files: u32,
    /// Enable logging of packet statistics.
    pub enable_stats: bool,
    /// Stats reporting interval in seconds.
    pub stats_interval_secs: u64,
    /// Optional relay ID for multi-relay deployments.
    pub relay_id: Option<String>,
    /// Rate limiting: max packets per second per session.
    pub rate_limit_pps: Option<u32>,
    /// Rate limiting: max bytes per second per session.
    pub rate_limit_bps: Option<u64>,
    /// Max concurrent handshake forwarding tasks.
    pub max_concurrent_handshakes: Option<usize>,
    /// Max handshake packets per second per source IP.
    pub handshake_rate_limit_pps: Option<u32>,
    /// Max new handshakes per second across all source IPs combined; zero is no limit.
    pub handshake_global_rate_limit_pps: Option<u32>,
    /// Enable Prometheus metrics HTTP endpoint.
    pub enable_metrics: bool,
    /// Metrics HTTP server address.
    pub metrics_addr: SocketAddr,
    /// Bearer token required to access the metrics endpoint.
    pub metrics_auth_token: Option<String>,
    /// No-log mode: suppress IP addresses and session details from logs.
    pub no_log: bool,
    /// Deprecated and ignored; kept so that files that set it still parse.
    pub license_key: Option<String>,
}

/// What is left out takes these values.
impl Default for RelayConfig {
    fn default() -> (c: RelayConfig)
        ensures
            c.listen_addr == (SocketAddr {
                ip: IpAddr::V4(0),
                port: 51821,
                flowinfo: 0,
                scope_id: 0,
            }),
            c.upstream_addr == (SocketAddr {
                ip: IpAddr::V4(0x7f00_0001),
                port: 51820,
                flowinfo: 0,
                scope_id: 0,
            }),
            c.max_sessions == 10000,
            c.session_timeout_secs == 180,
            c.buffer_size == 65535,
            c.log_enabled,
            c.log_file is None,
            c.log_max_size_mb == 100,
            c.log_max_files == 5,
            !c.enable_stats,
            c.stats_interval_secs == 60,
            c.relay_id is None,
            c.rate_limit_pps is None,
            c.rate_limit_bps is None,
            c.max_concurrent_handshakes is None,
            c.handshake_rate_limit_pps is None,
            c.handshake_global_rate_limit_pps is None,
            !c.enable_metrics,
            c.metrics_addr == (SocketAddr {
                ip: IpAddr::V4(0x7f00_0001),
                port: 9101,
                flowinfo: 0,
                scope_id: 0,
            }),
            c.metrics_auth_token is None,
            c.no_log,
            c.license_key is None,
            c.complaint() is None,
    {
        RelayConfig {
            listen_addr: SocketAddr::new(IpAddr::v4(0, 0, 0, 0), 51821),
            upstream_addr: SocketAddr::new(IpAddr::v4(127, 0, 0, 1), 51820),
            max_sessions: 10000,
            session_timeout_secs: 180,
            buffer_size: 65535,
            log_enabled: true,
            log_file: None,
            log_max_size_mb: 100,
            log_max_files: 5,
            enable_stats: false,
            stats_interval_secs: 60,
            relay_id: None,
            rate_limit_pps: None,
            rate_limit_bps: None,
            max_concurrent_handshakes: None,
            handshake_rate_limit_pps: None,
            handshake_global_rate_limit_pps: None,
            enable_metrics: false,
            metrics_addr: SocketAddr::new(IpAddr::v4(127, 0, 0, 1), 9101),
            metrics_auth_token: None,
            no_log: true,
            license_key: None,
        }
    }
}

/// Why metrics may not be served openly.
pub open spec fn open_metrics_text(addr: SocketAddr) -> Seq<char> {
    "enable_metrics is true and metrics_addr ("@ + socket_text(addr)
        + ") is not a loopback address, but metrics_auth_token is missing or shorter than 16 characters. Either bind to 127.0.0.1, or configure a strong (>=16 character) bearer token."@
}

/// Why a configuration file of `len` bytes is refused, if it is.
pub open spec fn file_size_complaint(len: u64) -> Option<Seq<char>> {
    if len > MAX_CONFIG_FILE_SIZE {
        Some(
            "config file too large: "@ + decimal(len as nat) + " bytes (max: "@ + decimal(
                MAX_CONFIG_FILE_SIZE as nat,
            ) + " bytes)"@,
        )
    } else {
        None
    }
}

/// Refuses a configuration file that is too large to be one.
pub fn check_file_size(len: u64) -> (r: RelayResult<()>)
    ensures
        match r {
            Ok(_) => file_size_complaint(len) is None,
            Err(RelayError::Config(m)) => file_size_complaint(len) == Some(m@),
            Err(RelayError::Io(_)) => false,
        },
{
    if len > MAX_CONFIG_FILE_SIZE {
        let mut m = String::from_str("config file too large: ");
        push_decimal(&mut m, len);
        m.append(" bytes (max: ");
        push_decimal(&mut m, MAX_CONFIG_FILE_SIZE);
        m.append(" bytes)");
        return Err(RelayError::Config(m));
    }
    Ok(())
}

impl RelayConfig {
    /// Whether the metrics endpoint is reachable from other hosts without a strong token.
    pub open spec fn exposes_metrics(self) -> bool {
        &&& self.enable_metrics
        &&& !self.metrics_addr.ip.loopback()
        &&& match self.metrics_auth_token {
            None => true,
            Some(t) => encode_utf8(trim(t@)).len() < MIN_METRICS_TOKEN_LEN,
        }
    }

    /// Whether packets would be forwarded to the relay itself.
    pub open spec fn forwards_to_itself(self) -> bool {
        ||| self.listen_addr == self.upstream_addr
        ||| self.listen_addr.ip.unspecified() && self.upstream_addr.ip.loopback()
            && self.listen_addr.port == self.upstream_addr.port
    }

    /// The first rule that the configuration breaks, `None` when it breaks none.
    pub open spec fn complaint(self) -> Option<Seq<char>> {
        if self.max_sessions == 0 {
            Some("max_sessions must be > 0"@)
        } else if self.session_timeout_secs < 10 {
            Some("session_timeout_secs must be >= 10"@)
        } else if self.buffer_size < 1500 {
            Some("buffer_size must be >= 1500"@)
        } else if self.max_concurrent_handshakes == Some(0usize) {
            Some("max_concurrent_handshakes must be > 0 when set"@)
        } else if self.handshake_rate_limit_pps == Some(0u32) {
            Some("handshake_rate_limit_pps must be > 0 when set"@)
        } else if self.listen_addr == self.upstream_addr {
            Some(
                "upstream_addr cannot be the same as listen_addr (would create infinite loop)"@,
            )
        } else if self.forwards_to_itself() {
            Some(
                "upstream_addr points to localhost on same port as listen_addr (would create infinite loop)"@,
            )
        } else if self.exposes_metrics() {
            Some(open_metrics_text(self.metrics_addr))
        } else {
            None
        }
    }

    /// Get the session timeout as a Duration.
    pub fn session_timeout(&self) -> (d: Duration)
        ensures
            d == (Duration { secs: self.session_timeout_secs, nanos: 0 }),
    {
        Duration::from_secs(self.session_timeout_secs)
    }

    /// Get the stats interval as a Duration.
    pub fn stats_interval(&self) -> (d: Duration)
        ensures
            d == (Duration { secs: self.stats_interval_secs, nanos: 0 }),
    {
        Duration::from_secs(self.stats_interval_secs)
    }

    /// Validate the configuration.
    pub fn validate(&self) -> (r: RelayResult<()>)
        ensures
            match r {
                Ok(_) => self.complaint() is None,
                Err(RelayError::Config(m)) => self.complaint() == Some(m@),
                Err(RelayError::Io(_)) => false,
            },
    {
        if self.max_sessions == 0 {
            return Err(RelayError::Config(String::from_str("max_sessions must be > 0")));
        }
        if self.session_timeout_secs < 10 {
            return Err(
                RelayError::Config(String::from_str("session_timeout_secs must be >= 10")),
            );
        }
        if self.buffer_size < 1500 {
            return Err(RelayError::Config(String::from_str("buffer_size must be >= 1500")));
        }
        if let Some(max) = self.max_concurrent_handshakes {
            if max == 0 {
                return Err(
                    RelayError::Config(
                        String::from_str("max_concurrent_handshakes must be > 0 when set"),
                    ),
                );
            }
        }
        if let Some(pps) = self.handshake_rate_limit_pps {
            if pps == 0 {
                return Err(
                    RelayError::Config(
                        String::from_str("handshake_rate_limit_pps must be > 0 when set"),
                    ),
                );
            }
        }
        if self.listen_addr == self.upstream_addr {
            return Err(
                RelayError::Config(
                    String::from_str(
                        "upstream_addr cannot be the same as listen_addr (would create infinite loop)",
                    ),
                ),
            );
        }
        if self.listen_addr.ip.is_unspecified() && self.upstream_addr.ip.is_loopback()
            && self.listen_addr.port == self.upstream_addr.port {
            return Err(
                RelayError::Config(
                    String::from_str(
                        "upstream_addr points to localhost on same port as listen_addr (would create infinite loop)",
                    ),
                ),
            );
        }
        if self.enable_metrics && !self.metrics_addr.ip.is_loopback() {
            let needs_auth = match &self.metrics_auth_token {
                None => true,
                Some(t) => {
                    let core = trimmed(t.as_str());
                    core.as_str().as_bytes().len() < MIN_METRICS_TOKEN_LEN
                },
            };
            if needs_auth {
                let mut m = String::from_str("enable_metrics is true and metrics_addr (");
                let addr = self.metrics_addr.to_text();
                m.append(addr.as_str());
                m.append(
                    ") is not a loopback address, but metrics_auth_token is missing or shorter than 16 characters. Either bind to 127.0.0.1, or configure a strong (>=16 character) bearer token.",
                );
                return Err(RelayError::Config(m));
            }
        }
        Ok(())
    }

    /// Takes a configuration file's text as it was parsed: as settings at the top, or else in a
    /// section named `relay`. The error is that of the settings at the top.
    pub fn from_parsed(root: Result<RelayConfig, String>, nested: Option<RelayConfig>) -> (r:
        RelayResult<RelayConfig>)
        ensures
            match (root, nested, r) {
                (Ok(c), _, Ok(d)) => d == c,
                (Err(_), Some(c), Ok(d)) => d == c,
                (Err(m), None, Err(RelayError::Config(t))) => t@ == "failed to parse config: "@
                    + m@,
                _ => false,
            },
    {
        match root {
            Ok(c) => Ok(c),
            Err(m) => match nested {
                Some(c) => Ok(c),
                None => {
                    let mut t = String::from_str("failed to parse config: ");
                    t.append(m.as_str());
                    Err(RelayError::Config(t))
                },
            },
        }
    }

    /// A configuration to start from.
    pub fn example() -> (c: RelayConfig)
        ensures
            c.listen_addr == (SocketAddr {
                ip: IpAddr::V4(0),
                port: 51821,
                flowinfo: 0,
                scope_id: 0,
            }),
            c.upstream_addr == (SocketAddr {
                ip: IpAddr::V4(0xc633_6401),
                port: 51820,
                flowinfo: 0,
                scope_id: 0,
            }),
            c.max_sessions == 10000,
            c.session_timeout_secs == 180,
            c.buffer_size == 65535,
            c.log_enabled,
            c.log_file is None,
            c.log_max_size_mb == 100,
            c.log_max_files == 5,
            c.enable_stats,
            c.stats_interval_secs == 60,
            c.relay_id is Some && c.relay_id->0@ == "relay-1"@,
            c.rate_limit_pps is None,
            c.rate_limit_bps is None,
            c.max_concurrent_handshakes == Some(256usize),
            c.handshake_rate_limit_pps == Some(64u32),
            c.handshake_global_rate_limit_pps == Some(256u32),
            c.enable_metrics,
            c.metrics_addr == (SocketAddr {
                ip: IpAddr::V4(0x7f00_0001),
                port: 9101,
                flowinfo: 0,
                scope_id: 0,
            }),
            c.metrics_auth_token is None,
            c.no_log,
            c.license_key is None,
            c.complaint() is None,
    {
        RelayConfig {
            listen_addr: SocketAddr::new(IpAddr::v4(0, 0, 0, 0), 51821),
            upstream_addr: SocketAddr::new(IpAddr::v4(198, 51, 100, 1), 51820),
            max_sessions: 10000,
            session_timeout_secs: 180,
            buffer_size: 65535,
            log_enabled: true,
            log_file: None,
            log_max_size_mb: 100,
            log_max_files: 5,
            enable_stats: true,
            stats_interval_secs: 60,
            relay_id: Some(String::from_str("relay-1")),
            rate_limit_pps: None,
            rate_limit_bps: None,
            max_concurrent_handshakes: Some(256),
            handshake_rate_limit_pps: Some(64),
            handshake_global_rate_limit_pps: Some(256),
            enable_metrics: true,
            metrics_addr: SocketAddr::new(IpAddr::v4(127, 0, 0, 1), 9101),
            metrics_auth_token: None,
            no_log: true,
            license_key: None,
        }
    }

    /// How to log, by a configuration; without one everything is logged, and to no file.
    pub fn log_settings(config: Option<&RelayConfig>) -> (s: LogSettings)
        ensures
            match config {
                None => s.enabled && !s.no_log && s.file is None,
                Some(c) => {
                    &&& s.enabled == c.log_enabled
                    &&& s.no_log == c.no_log
                    &&& names_file(s.file, c.log_file, c.log_max_size_mb, c.log_max_files)
                },
            },
    {
        match config {
            None => LogSettings { enabled: true, no_log: false, file: None },
            Some(c) => LogSettings {
                enabled: c.log_enabled,
                no_log: c.no_log,
                file: file_settings(&c.log_file, c.log_max_size_mb, c.log_max_files),
            },
        }
    }

    /// Check if rate limiting is configured.
    /// Returns true if at least one rate limit is set.
    pub fn has_rate_limits(&self) -> (b: bool)
        ensures
            b == (self.rate_limit_pps is Some || self.rate_limit_bps is Some),
    {
        self.rate_limit_pps.is_some() || self.rate_limit_bps.is_some()
    }
}

/// A valid configuration never serves metrics to other hosts without a strong token, and never
/// forwards to itself.
pub proof fn law_valid_config_is_closed(c: RelayConfig)
    requires
        c.complaint() is None,
    ensures
        !c.exposes_metrics(),
        !c.forwards_to_itself(),
        c.max_sessions > 0,
        c.session_timeout_secs >= 10,
        c.buffer_size >= 1500,
        c.max_concurrent_handshakes != Some(0usize),
        c.handshake_rate_limit_pps != Some(0u32),
{
}

/// A configuration is accepted exactly when it has room for sessions, keeps them for ten seconds
/// or more, has buffers for a packet, sets no limit on handshakes to zero, does not forward to
/// itself, and serves metrics to other hosts only behind a token of sixteen bytes or more.
pub proof fn law_sound_configs_are_accepted(c: RelayConfig)
    ensures
        c.complaint() is None <==> {
            &&& c.max_sessions >= 1
            &&& c.session_timeout_secs >= 10
            &&& c.buffer_size >= 1500
            &&& c.max_concurrent_handshakes matches Some(n) ==> n >= 1
            &&& c.handshake_rate_limit_pps matches Some(n) ==> n >= 1
            &&& c.listen_addr != c.upstream_addr
            &&& !(c.listen_addr.ip.unspecified() && c.upstream_addr.ip.loopback()
                && c.listen_addr.port == c.upstream_addr.port)
            &&& c.enable_metrics && !c.metrics_addr.ip.loopback() ==> c.metrics_auth_token is Some
                && encode_utf8(trim(c.metrics_auth_token->0@)).len() >= 16
        },
{
}

/// A file of up to a megabyte is read, and no larger one.
pub proof fn law_large_files_are_refused(len: u64)
    ensures
        file_size_complaint(len) is None <==> len <= 1_048_576,
{
}

} // verus!
