//! Server configuration.
//!
//! Only essential settings are exposed; performance tuning is automatic.

use crate::be::be_value;
use crate::net::{IpAddr, SocketAddr, socket_text};
use crate::server::addresses::{
    dns_of, parse_v4_dns, parse_v4_pool, parse_v6_dns, parse_v6_octets, parse_v6_pool, parse_octets,
    octets_of, v4_pool_of, v4_views, v6_dns_of, v6_octets_of, v6_pool_of, v6_views,
};
use crate::server::auto_tune::{NetworkBackend, SystemCapabilities};
use crate::server::error::{ServerError, ServerResult};
use crate::text::{chars_of, decimal, lowercase, lowered, push_decimal, same_text, texts, trim, trimmed};
use crate::time::Duration;
use vstd::arithmetic::power2::{lemma2_to64, lemma_pow2_strictly_increases, pow2};
use vstd::bits::{lemma_u32_shl_is_mul, lemma_u32_shr_is_div};
use vstd::prelude::*;
use vstd::utf8::encode_utf8;

verus! {

/// Fewest bytes of an admin API token.
pub const MIN_ADMIN_TOKEN_LEN: usize = 24;

/// Most sessions when the number follows from the address pool.
pub const MAX_AUTO_SESSIONS: usize = 100_000;

/// Number of sessions when the address pool gives none.
pub const FALLBACK_SESSIONS: usize = 1000;

/// Server configuration.
#[derive(Clone, Debug)]
pub struct ServerConfig {
    /// Listen address for UDP.
    pub listen_addr: SocketAddr,
    /// IPv4 address pool for clients (CIDR notation).
    pub ipv4_pool: String,
    /// Server's tunnel IPv4 address.
    pub server_tunnel_ip: String,
    /// DNS servers (IPv4) to provide to clients.
    pub dns_servers: Vec<String>,
    /// IPv6 address pool for clients (CIDR notation, optional).
    pub ipv6_pool: Option<String>,
    /// Server's tunnel IPv6 address (optional).
    pub server_tunnel_ipv6: Option<String>,
    /// DNS servers (IPv6) to provide to clients.
    pub dns_servers_v6: Vec<String>,
    /// TUN device name.
    pub tun_name: String,
    /// MTU for the tunnel.
    pub mtu: u16,
    /// Session timeout in seconds.
    pub session_timeout_secs: u64,
    /// Keepalive interval in seconds.
    pub keepalive_interval_secs: u64,
    /// Enable server logging output.
    pub log_enabled: bool,
    /// Path to log file. When set, logs are written to this file as well.
    pub log_file: Option<String>,
    /// Maximum log file size in MB before rotation.
    pub log_max_size_mb: u64,
    /// Maximum number of rotated log files to keep.
    pub log_max_files: u32,
    /// Maximum sessions (calculated from the IP pool if not set).
    pub max_sessions: Option<usize>,
    /// Enable NAT/masquerade.
    pub enable_nat: bool,
    /// Network interface for NAT (detected if not set).
    pub nat_interface: Option<String>,
    /// Enable metrics HTTP endpoint.
    pub enable_metrics: bool,
    /// Strict no-log mode: client addresses and traffic stay out of the logs.
    pub no_log: bool,
    /// Metrics HTTP listen address.
    pub metrics_addr: SocketAddr,
    /// Enable admin REST API.
    pub enable_admin_api: bool,
    /// Admin API HTTP listen address.
    pub admin_addr: SocketAddr,
    /// Admin API token (plain text).
    pub admin_api_token: Option<String>,
    /// SHA-256 hash of the admin API token, hex-encoded. Takes priority over the plain token.
    pub admin_api_token_sha256: Option<String>,
    /// Deprecated and ignored; kept so that files that set it still parse.
    pub license_key: Option<String>,
    /// Path to the user authentication database.
    pub users_db_path: Option<String>,
    /// Require user authentication for all connections.
    pub require_auth: bool,
    /// Minimum security level accepted on incoming handshakes.
    pub min_security_level: String,
    /// Maximum packets per second accepted from a single session; zero is no limit.
    pub session_rate_limit_pps: u32,
    /// Maximum bytes per second accepted from a single session; zero is no limit.
    pub session_rate_limit_bps: u64,
    /// User to drop privileges to after binding sockets.
    pub run_as_user: Option<String>,
    /// Group to drop privileges to after binding sockets.
    pub run_as_group: Option<String>,
}

/// What is left out takes these values.
impl Default for ServerConfig {
    fn default() -> (c: ServerConfig)
        ensures
            c.listen_addr == (SocketAddr {
                ip: IpAddr::V4(0),
                port: 51820,
                flowinfo: 0,
                scope_id: 0,
            }),
            c.ipv4_pool@ == "10.99.0.0/24"@,
            c.server_tunnel_ip@ == "10.99.0.1"@,
            texts(c.dns_servers@) == seq!["1.1.1.1"@, "8.8.8.8"@],
            c.ipv6_pool is None,
            c.server_tunnel_ipv6 is None,
            c.dns_servers_v6@.len() == 0,
            c.tun_name@ == "hpn0"@,
            c.mtu == 1420,
            c.session_timeout_secs == 180,
            c.keepalive_interval_secs == 25,
            c.log_enabled,
            c.log_file is None,
            c.log_max_size_mb == 100,
            c.log_max_files == 5,
            c.max_sessions is None,
            c.enable_nat,
            c.nat_interface is None,
            !c.enable_metrics,
            c.no_log,
            c.metrics_addr == (SocketAddr {
                ip: IpAddr::V4(0x7f00_0001),
                port: 9100,
                flowinfo: 0,
                scope_id: 0,
            }),
            !c.enable_admin_api,
            c.admin_addr == (SocketAddr {
                ip: IpAddr::V4(0x7f00_0001),
                port: 9101,
                flowinfo: 0,
                scope_id: 0,
            }),
            c.admin_api_token is None,
            c.admin_api_token_sha256 is None,
            c.license_key is None,
            c.users_db_path is None,
            !c.require_auth,
            c.min_security_level@ == "level3"@,
            c.session_rate_limit_pps == 100_000,
            c.session_rate_limit_bps == 125_000_000,
            c.run_as_user is None,
            c.run_as_group is None,
    {
        let mut dns: Vec<String> = Vec::new();
        dns.push(String::from_str("1.1.1.1"));
        dns.push(String::from_str("8.8.8.8"));
        proof {
            assert(texts(dns@) =~= seq!["1.1.1.1"@, "8.8.8.8"@]);
        }
        ServerConfig {
            listen_addr: SocketAddr::new(IpAddr::v4(0, 0, 0, 0), 51820),
            ipv4_pool: String::from_str("10.99.0.0/24"),
            server_tunnel_ip: String::from_str("10.99.0.1"),
            dns_servers: dns,
            ipv6_pool: None,
            server_tunnel_ipv6: None,
            dns_servers_v6: Vec::new(),
            tun_name: String::from_str("hpn0"),
            mtu: 1420,
            session_timeout_secs: 180,
            keepalive_interval_secs: 25,
            log_enabled: true,
            log_file: None,
            log_max_size_mb: 100,
            log_max_files: 5,
            max_sessions: None,
            enable_nat: true,
            nat_interface: None,
            enable_metrics: false,
            no_log: true,
            metrics_addr: SocketAddr::new(IpAddr::v4(127, 0, 0, 1), 9100),
            enable_admin_api: false,
            admin_addr: SocketAddr::new(IpAddr::v4(127, 0, 0, 1), 9101),
            admin_api_token: None,
            admin_api_token_sha256: None,
            license_key: None,
            users_db_path: None,
            require_auth: false,
            min_security_level: String::from_str("level3"),
            session_rate_limit_pps: 100_000,
            session_rate_limit_bps: 125_000_000,
            run_as_user: None,
            run_as_group: None,
        }
    }
}

/// Number of addresses that clients can have in a pool with this prefix length.
pub open spec fn usable_addresses(prefix: u8) -> int {
    pow2((32 - prefix) as nat) - 2
}

/// Whether two IPv4 addresses agree in their first `prefix` bits.
pub open spec fn same_network(a: Seq<u8>, b: Seq<u8>, prefix: u8) -> bool {
    be_value(a) / pow2((32 - prefix) as nat) == be_value(b) / pow2((32 - prefix) as nat)
}

/// The first of two complaints.
pub open spec fn either(a: Option<Seq<char>>, b: Option<Seq<char>>) -> Option<Seq<char>> {
    if a is Some {
        a
    } else {
        b
    }
}

/// Whether a configuration check says `complaint`.
pub open spec fn says(r: ServerResult<()>, complaint: Option<Seq<char>>) -> bool {
    match r {
        Ok(_) => complaint is None,
        Err(ServerError::Config(m)) => complaint == Some(m@),
        Err(_) => false,
    }
}

/// Whether a token is one character over and over.
pub open spec fn repeats_one_char(s: Seq<char>) -> bool {
    s.len() > 0 && forall|i: int| 0 <= i < s.len() ==> #[trigger] s[i] == s[0]
}

/// Number of bytes of a token without white space around it.
pub open spec fn token_len(t: Seq<char>) -> nat {
    encode_utf8(trim(t)).len()
}

/// Why metrics may not be served openly.
pub open spec fn open_metrics_text(addr: SocketAddr) -> Seq<char> {
    "enable_metrics is true and metrics_addr ("@ + socket_text(addr)
        + ") is not a loopback address, but no authenticated path is configured. Either bind metrics_addr to 127.0.0.1 (and front it with an authenticated reverse proxy if remote scraping is required), or set enable_admin_api = true with a strong admin_api_token (>=24 chars) so /metrics is served through the authenticated admin endpoint."@
}

impl ServerConfig {
    /// Default path to the user authentication database.
    pub const DEFAULT_USERS_DB_PATH: &'static str = "/var/lib/hpn/users.db";

    /// What is wrong with the IPv4 pool, the server's address in it or the name servers.
    pub open spec fn network_complaint(self) -> Option<Seq<char>> {
        match v4_pool_of(self.ipv4_pool@) {
            Err(m) => Some(m),
            Ok(pool) => if pool.1 < 16 || pool.1 > 30 {
                Some("prefix must be between 16 and 30, got "@ + decimal(pool.1 as nat))
            } else {
                match octets_of(
                    self.server_tunnel_ip@,
                    "invalid server tunnel IP: "@,
                    "invalid IP octet: "@,
                ) {
                    Err(m) => Some(m),
                    Ok(server) => if !same_network(server, pool.0, pool.1) {
                        Some(
                            "server tunnel IP "@ + self.server_tunnel_ip@ + " is not in pool "@
                                + self.ipv4_pool@,
                        )
                    } else {
                        match dns_of(texts(self.dns_servers@)) {
                            Err(m) => Some(m),
                            Ok(_) => None,
                        }
                    },
                }
            },
        }
    }

    /// What is wrong with the IPv6 pool, the server's address in it or the name servers.
    pub open spec fn ipv6_complaint(self) -> Option<Seq<char>> {
        match self.ipv6_pool {
            None => None,
            Some(text) => match v6_pool_of(text@) {
                Err(m) => Some(m),
                Ok(pool) => if pool.1 < 48 || pool.1 > 128 {
                    Some("IPv6 prefix must be between 48 and 128, got "@ + decimal(pool.1 as nat))
                } else {
                    match self.server_tunnel_ipv6 {
                        None => Some("ipv6_pool configured but server_tunnel_ipv6 is missing"@),
                        Some(own) => match v6_octets_of(own@, "invalid IPv6 address: "@) {
                            Err(m) => Some(m),
                            Ok(server) => if pool.0.take(pool.1 as int / 8) != server.take(
                                pool.1 as int / 8,
                            ) {
                                Some(
                                    "server tunnel IPv6 "@ + own@ + " is not in pool Some(\""@
                                        + text@ + "\")"@,
                                )
                            } else {
                                match v6_dns_of(texts(self.dns_servers_v6@)) {
                                    Err(m) => Some(m),
                                    Ok(_) => None,
                                }
                            },
                        },
                    }
                },
            },
        }
    }

    /// What is wrong with the MTU, the timers, log rotation or the security level.
    pub open spec fn limits_complaint(self) -> Option<Seq<char>> {
        let level = lowercase(self.min_security_level@);
        if self.mtu < 576 {
            Some("MTU must be at least 576, got "@ + decimal(self.mtu as nat))
        } else if self.mtu > 9000 {
            Some("MTU must be at most 9000, got "@ + decimal(self.mtu as nat))
        } else if self.session_timeout_secs == 0 {
            Some("session_timeout_secs must be > 0"@)
        } else if self.keepalive_interval_secs == 0 {
            Some("keepalive_interval_secs must be > 0"@)
        } else if self.log_file is Some && self.log_max_size_mb == 0 {
            Some("log_max_size_mb must be >= 1 when log_file is set"@)
        } else if self.log_file is Some && self.log_max_files == 0 {
            Some("log_max_files must be >= 1 when log_file is set"@)
        } else if level != "level3"@ && level != "level5"@ && level != "3"@ && level != "5"@ {
            Some("min_security_level must be 'level3' or 'level5', got '"@ + level + "'"@)
        } else {
            None
        }
    }

    /// Number of sessions that the configuration asks for.
    pub open spec fn sessions(self) -> int {
        match self.max_sessions {
            Some(n) => n as int,
            None => match v4_pool_of(self.ipv4_pool@) {
                Ok(pool) => if pool.1 > 30 {
                    FALLBACK_SESSIONS as int
                } else if usable_addresses(pool.1) < MAX_AUTO_SESSIONS {
                    usable_addresses(pool.1)
                } else {
                    MAX_AUTO_SESSIONS as int
                },
                Err(_) => FALLBACK_SESSIONS as int,
            },
        }
    }

    /// Whether more sessions are asked for than a pool with this prefix length has addresses.
    pub open spec fn sessions_complaint(self, prefix: u8) -> Option<Seq<char>> {
        if self.sessions() > usable_addresses(prefix) {
            Some(
                "max_sessions ("@ + decimal(self.sessions() as nat)
                    + ") exceeds available IPs in pool ("@ + decimal(
                    usable_addresses(prefix) as nat,
                ) + ")"@,
            )
        } else {
            None
        }
    }

    /// What is wrong with the admin API token.
    pub open spec fn admin_complaint(self) -> Option<Seq<char>> {
        if self.enable_admin_api && self.admin_api_token is Some {
            let t = self.admin_api_token->0@;
            if token_len(t) < MIN_ADMIN_TOKEN_LEN {
                Some(
                    "admin_api_token is too short ("@ + decimal(token_len(t))
                        + " chars); must be at least "@ + decimal(MIN_ADMIN_TOKEN_LEN as nat)
                        + " chars. Use `openssl rand -base64 32` to generate a strong token."@,
                )
            } else if repeats_one_char(trim(t)) {
                Some(
                    "admin_api_token is a single repeated character; generate a real random token"@,
                )
            } else {
                None
            }
        } else {
            None
        }
    }

    /// Whether other hosts could read the metrics without a strong token.
    pub open spec fn exposes_metrics(self) -> bool {
        &&& self.enable_metrics
        &&& !self.metrics_addr.ip.loopback()
        &&& !(self.enable_admin_api && self.admin_api_token is Some && token_len(
            self.admin_api_token->0@,
        ) >= MIN_ADMIN_TOKEN_LEN)
    }

    /// What is wrong with where the metrics are served.
    pub open spec fn metrics_complaint(self) -> Option<Seq<char>> {
        if self.exposes_metrics() {
            Some(open_metrics_text(self.metrics_addr))
        } else {
            None
        }
    }

    /// The first rule that the configuration breaks, `None` when it breaks none.
    pub open spec fn complaint(self) -> Option<Seq<char>> {
        let before_sessions = either(
            self.network_complaint(),
            either(self.ipv6_complaint(), self.limits_complaint()),
        );
        match (before_sessions, v4_pool_of(self.ipv4_pool@)) {
            (None, Ok(pool)) => either(
                self.sessions_complaint(pool.1),
                either(self.admin_complaint(), self.metrics_complaint()),
            ),
            (c, _) => c,
        }
    }

    /// The configured path to the users database, or the default path.
    pub fn users_db_path_or_default(&self) -> (s: String)
        ensures
            match self.users_db_path {
                Some(p) => s@ == p@,
                None => s@ == "/var/lib/hpn/users.db"@,
            },
    {
        match &self.users_db_path {
            Some(p) => String::from_str(p.as_str()),
            None => String::from_str(Self::DEFAULT_USERS_DB_PATH),
        }
    }

    /// Get the session timeout as a Duration.
    pub fn session_timeout(&self) -> (d: Duration)
        ensures
            d == (Duration { secs: self.session_timeout_secs, nanos: 0 }),
    {
        Duration::from_secs(self.session_timeout_secs)
    }

    /// Get the keepalive interval as a Duration.
    pub fn keepalive_interval(&self) -> (d: Duration)
        ensures
            d == (Duration { secs: self.keepalive_interval_secs, nanos: 0 }),
    {
        Duration::from_secs(self.keepalive_interval_secs)
    }

    /// Get max sessions (calculated from the IP pool if not specified).
    pub fn get_max_sessions(&self) -> (n: usize)
        ensures
            n == self.sessions(),
    {
        if let Some(max) = self.max_sessions {
            return max;
        }
        match parse_v4_pool(self.ipv4_pool.as_str()) {
            Ok((_, prefix)) => {
                if prefix > 30 {
                    return FALLBACK_SESSIONS;
                }
                let max_ips: u32 = addresses_of(prefix);
                if max_ips < 100_000 {
                    max_ips as usize
                } else {
                    MAX_AUTO_SESSIONS
                }
            },
            Err(_) => FALLBACK_SESSIONS,
        }
    }

    /// Parse the IPv4 pool into base address and prefix length.
    pub fn parse_ipv4_pool(&self) -> (r: ServerResult<([u8; 4], u8)>)
        ensures
            match r {
                Ok(p) => v4_pool_of(self.ipv4_pool@) == Ok::<(Seq<u8>, u8), Seq<char>>(
                    (p.0@, p.1),
                ),
                Err(ServerError::Config(m)) => v4_pool_of(self.ipv4_pool@) == Err::<
                    (Seq<u8>, u8),
                    Seq<char>,
                >(m@),
                Err(_) => false,
            },
    {
        match parse_v4_pool(self.ipv4_pool.as_str()) {
            Ok(p) => Ok(p),
            Err(m) => Err(ServerError::Config(m)),
        }
    }

    /// Parse the server tunnel IP.
    pub fn parse_server_tunnel_ip(&self) -> (r: ServerResult<[u8; 4]>)
        ensures
            match r {
                Ok(a) => octets_of(
                    self.server_tunnel_ip@,
                    "invalid server tunnel IP: "@,
                    "invalid IP octet: "@,
                ) == Ok::<Seq<u8>, Seq<char>>(a@),
                Err(ServerError::Config(m)) => octets_of(
                    self.server_tunnel_ip@,
                    "invalid server tunnel IP: "@,
                    "invalid IP octet: "@,
                ) == Err::<Seq<u8>, Seq<char>>(m@),
                Err(_) => false,
            },
    {
        let chars = chars_of(self.server_tunnel_ip.as_str());
        match parse_octets(chars.as_slice(), "invalid server tunnel IP: ", "invalid IP octet: ") {
            Ok(a) => Ok(a),
            Err(m) => Err(ServerError::Config(m)),
        }
    }

    /// Parse DNS server strings into IP arrays.
    pub fn parse_dns_servers(&self) -> (r: ServerResult<Vec<[u8; 4]>>)
        ensures
            match r {
                Ok(v) => dns_of(texts(self.dns_servers@)) == Ok::<Seq<Seq<u8>>, Seq<char>>(
                    v4_views(v@),
                ),
                Err(ServerError::Config(m)) => dns_of(texts(self.dns_servers@)) == Err::<
                    Seq<Seq<u8>>,
                    Seq<char>,
                >(m@),
                Err(_) => false,
            },
    {
        match parse_v4_dns(&self.dns_servers) {
            Ok(v) => Ok(v),
            Err(m) => Err(ServerError::Config(m)),
        }
    }

    /// Parse the IPv6 pool into base address and prefix length.
    pub fn parse_ipv6_pool(&self) -> (r: ServerResult<Option<([u8; 16], u8)>>)
        ensures
            match (self.ipv6_pool, r) {
                (None, Ok(None)) => true,
                (Some(t), Ok(Some(p))) => v6_pool_of(t@) == Ok::<(Seq<u8>, u8), Seq<char>>(
                    (p.0@, p.1),
                ),
                (Some(t), Err(ServerError::Config(m))) => v6_pool_of(t@) == Err::<
                    (Seq<u8>, u8),
                    Seq<char>,
                >(m@),
                _ => false,
            },
    {
        match &self.ipv6_pool {
            None => Ok(None),
            Some(t) => match parse_v6_pool(t.as_str()) {
                Ok(p) => Ok(Some(p)),
                Err(m) => Err(ServerError::Config(m)),
            },
        }
    }

    /// Parse the server tunnel IPv6 address.
    pub fn parse_server_tunnel_ipv6(&self) -> (r: ServerResult<Option<[u8; 16]>>)
        ensures
            match (self.server_tunnel_ipv6, r) {
                (None, Ok(None)) => true,
                (Some(t), Ok(Some(a))) => v6_octets_of(t@, "invalid IPv6 address: "@) == Ok::<
                    Seq<u8>,
                    Seq<char>,
                >(a@),
                (Some(t), Err(ServerError::Config(m))) => v6_octets_of(
                    t@,
                    "invalid IPv6 address: "@,
                ) == Err::<Seq<u8>, Seq<char>>(m@),
                _ => false,
            },
    {
        match &self.server_tunnel_ipv6 {
            None => Ok(None),
            Some(t) => {
                let chars = chars_of(t.as_str());
                match parse_v6_octets(chars.as_slice(), "invalid IPv6 address: ") {
                    Ok(a) => Ok(Some(a)),
                    Err(m) => Err(ServerError::Config(m)),
                }
            },
        }
    }

    /// Parse IPv6 DNS server strings into byte arrays.
    pub fn parse_dns_servers_v6(&self) -> (r: ServerResult<Vec<[u8; 16]>>)
        ensures
            match r {
                Ok(v) => v6_dns_of(texts(self.dns_servers_v6@)) == Ok::<
                    Seq<Seq<u8>>,
                    Seq<char>,
                >(v6_views(v@)),
                Err(ServerError::Config(m)) => v6_dns_of(texts(self.dns_servers_v6@)) == Err::<
                    Seq<Seq<u8>>,
                    Seq<char>,
                >(m@),
                Err(_) => false,
            },
    {
        match parse_v6_dns(&self.dns_servers_v6) {
            Ok(v) => Ok(v),
            Err(m) => Err(ServerError::Config(m)),
        }
    }

    /// Check if IPv6 is enabled.
    pub fn has_ipv6(&self) -> (b: bool)
        ensures
            b == (self.ipv6_pool is Some && self.server_tunnel_ipv6 is Some),
    {
        self.ipv6_pool.is_some() && self.server_tunnel_ipv6.is_some()
    }

    /// Check if TUN multiqueue should be used on a system with these capabilities.
    pub fn should_use_tun_multiqueue(&self, caps: &SystemCapabilities) -> (b: bool)
        ensures
            b == (caps.has_tun_multiqueue && caps.tun_queues() > 1),
    {
        caps.has_tun_multiqueue && caps.optimal_tun_queues() > 1
    }

    /// Get optimal number of TUN queues.
    pub fn get_tun_num_queues(&self, caps: &SystemCapabilities) -> (n: usize)
        ensures
            n == caps.tun_queues(),
    {
        caps.optimal_tun_queues()
    }

    /// Get optimal number of UDP workers.
    pub fn get_udp_workers(&self, caps: &SystemCapabilities) -> (n: usize)
        ensures
            n == caps.tun_queues(),
    {
        caps.optimal_workers()
    }

    /// Get optimal receive buffer size.
    pub fn get_recv_buffer_size(&self, caps: &SystemCapabilities) -> (n: usize)
        ensures
            n == caps.buffer_size(),
    {
        caps.optimal_buffer_size()
    }

    /// Get optimal send buffer size.
    pub fn get_send_buffer_size(&self, caps: &SystemCapabilities) -> (n: usize)
        ensures
            n == caps.buffer_size(),
    {
        caps.optimal_buffer_size()
    }

    /// Get optimal batch size.
    pub fn get_batch_size(&self, caps: &SystemCapabilities) -> (n: usize)
        ensures
            n == caps.backend.batch_size(),
    {
        caps.optimal_batch_size()
    }

    /// Check if io_uring should be used.
    pub fn should_use_io_uring(&self, caps: &SystemCapabilities) -> (b: bool)
        ensures
            b == (caps.backend == NetworkBackend::IoUring),
    {
        matches!(caps.backend, NetworkBackend::IoUring)
    }

    /// Check if AF_XDP should be used.
    pub fn should_use_afxdp(&self, caps: &SystemCapabilities) -> (b: bool)
        ensures
            b == (caps.backend == NetworkBackend::AfXdp),
    {
        matches!(caps.backend, NetworkBackend::AfXdp)
    }

    /// The interface, number of queues, ring size and zero-copy mode for AF_XDP, if available.
    pub fn get_afxdp_config(&self, caps: &SystemCapabilities) -> (r: Option<
        (String, u32, u32, bool),
    >)
        ensures
            match r {
                Some(c) => caps.has_afxdp && (caps.default_interface matches Some(i) && c.0@ == i@)
                    && c.1 == caps.nic_rx_queues as u32 && c.2 == 4096 && c.3,
                None => !caps.has_afxdp || caps.default_interface is None,
            },
    {
        if !caps.has_afxdp {
            return None;
        }
        match &caps.default_interface {
            None => None,
            Some(i) => Some(
                (
                    String::from_str(i.as_str()),
                    #[verifier::truncate]
                    (caps.nic_rx_queues as u32),
                    4096,
                    true,
                ),
            ),
        }
    }

    /// Whether metrics are served on their own, without authentication. With the admin API they
    /// are served there instead.
    pub fn serves_metrics_alone(&self) -> (b: bool)
        ensures
            b == (self.enable_metrics && !self.enable_admin_api),
    {
        self.enable_metrics && !self.enable_admin_api
    }

    /// Validate the configuration.
    pub fn validate(&self) -> (r: ServerResult<()>)
        ensures
            says(r, self.complaint()),
    {
        let prefix: u8 = match self.check_network() {
            Ok(p) => p,
            Err(e) => {
                return Err(e);
            },
        };
        if let Err(e) = self.check_ipv6() {
            return Err(e);
        }
        if let Err(e) = self.check_limits() {
            return Err(e);
        }
        if let Err(e) = self.check_sessions(prefix) {
            return Err(e);
        }
        if let Err(e) = self.check_admin() {
            return Err(e);
        }
        self.check_metrics()
    }

    fn check_network(&self) -> (r: ServerResult<u8>)
        ensures
            match r {
                Ok(p) => self.network_complaint() is None && 16 <= p <= 30 && v4_pool_of(
                    self.ipv4_pool@,
                ) is Ok && v4_pool_of(self.ipv4_pool@)->Ok_0.1 == p,
                Err(ServerError::Config(m)) => self.network_complaint() == Some(m@),
                Err(_) => false,
            },
    {
        let (base, prefix) = match self.parse_ipv4_pool() {
            Ok(p) => p,
            Err(e) => {
                return Err(e);
            },
        };
        if prefix < 16 || prefix > 30 {
            let mut m = String::from_str("prefix must be between 16 and 30, got ");
            push_decimal(&mut m, prefix as u64);
            return Err(ServerError::Config(m));
        }
        let server = match self.parse_server_tunnel_ip() {
            Ok(a) => a,
            Err(e) => {
                return Err(e);
            },
        };
        if !in_network(&server, &base, prefix) {
            let mut m = String::from_str("server tunnel IP ");
            m.append(self.server_tunnel_ip.as_str());
            m.append(" is not in pool ");
            m.append(self.ipv4_pool.as_str());
            return Err(ServerError::Config(m));
        }
        match self.parse_dns_servers() {
            Ok(_) => Ok(prefix),
            Err(e) => Err(e),
        }
    }

    fn check_ipv6(&self) -> (r: ServerResult<()>)
        ensures
            says(r, self.ipv6_complaint()),
    {
        let text = match &self.ipv6_pool {
            Some(t) => t,
            None => {
                return Ok(());
            },
        };
        let (base, prefix) = match self.parse_ipv6_pool() {
            Ok(Some(p)) => p,
            Ok(None) => {
                return Ok(());
            },
            Err(e) => {
                return Err(e);
            },
        };
        if prefix < 48 || prefix > 128 {
            let mut m = String::from_str("IPv6 prefix must be between 48 and 128, got ");
            push_decimal(&mut m, prefix as u64);
            return Err(ServerError::Config(m));
        }
        let own = match &self.server_tunnel_ipv6 {
            Some(t) => t,
            None => {
                return Err(
                    ServerError::Config(
                        String::from_str("ipv6_pool configured but server_tunnel_ipv6 is missing"),
                    ),
                );
            },
        };
        let server = match self.parse_server_tunnel_ipv6() {
            Ok(Some(a)) => a,
            Ok(None) => {
                return Ok(());
            },
            Err(e) => {
                return Err(e);
            },
        };
        let n: usize = (prefix / 8) as usize;
        if !same_start(&base, &server, n) {
            let mut m = String::from_str("server tunnel IPv6 ");
            m.append(own.as_str());
            m.append(" is not in pool Some(\"");
            m.append(text.as_str());
            m.append("\")");
            return Err(ServerError::Config(m));
        }
        match self.parse_dns_servers_v6() {
            Ok(_) => Ok(()),
            Err(e) => Err(e),
        }
    }

    fn check_limits(&self) -> (r: ServerResult<()>)
        ensures
            says(r, self.limits_complaint()),
    {
        if self.mtu < 576 {
            let mut m = String::from_str("MTU must be at least 576, got ");
            push_decimal(&mut m, self.mtu as u64);
            return Err(ServerError::Config(m));
        }
        if self.mtu > 9000 {
            let mut m = String::from_str("MTU must be at most 9000, got ");
            push_decimal(&mut m, self.mtu as u64);
            return Err(ServerError::Config(m));
        }
        if self.session_timeout_secs == 0 {
            return Err(ServerError::Config(String::from_str("session_timeout_secs must be > 0")));
        }
        if self.keepalive_interval_secs == 0 {
            return Err(
                ServerError::Config(String::from_str("keepalive_interval_secs must be > 0")),
            );
        }
        if self.log_file.is_some() {
            if self.log_max_size_mb == 0 {
                return Err(
                    ServerError::Config(
                        String::from_str("log_max_size_mb must be >= 1 when log_file is set"),
                    ),
                );
            }
            if self.log_max_files == 0 {
                return Err(
                    ServerError::Config(
                        String::from_str("log_max_files must be >= 1 when log_file is set"),
                    ),
                );
            }
        }
        let level = lowered(self.min_security_level.as_str());
        if !same_text(level.as_str(), "level3") && !same_text(level.as_str(), "level5")
            && !same_text(level.as_str(), "3") && !same_text(level.as_str(), "5") {
            let mut m = String::from_str("min_security_level must be 'level3' or 'level5', got '");
            m.append(level.as_str());
            m.append("'");
            return Err(ServerError::Config(m));
        }
        Ok(())
    }

    fn check_sessions(&self, prefix: u8) -> (r: ServerResult<()>)
        requires
            16 <= prefix <= 30,
        ensures
            says(r, self.sessions_complaint(prefix)),
    {
        let usable: u32 = addresses_of(prefix);
        let sessions: usize = self.get_max_sessions();
        if sessions as u64 > usable as u64 {
            let mut m = String::from_str("max_sessions (");
            push_decimal(&mut m, sessions as u64);
            m.append(") exceeds available IPs in pool (");
            push_decimal(&mut m, usable as u64);
            m.append(")");
            return Err(ServerError::Config(m));
        }
        Ok(())
    }

    fn check_admin(&self) -> (r: ServerResult<()>)
        ensures
            says(r, self.admin_complaint()),
    {
        if self.enable_admin_api {
            if let Some(token) = &self.admin_api_token {
                let core = trimmed(token.as_str());
                let len: usize = core.as_str().as_bytes().len();
                if len < MIN_ADMIN_TOKEN_LEN {
                    let mut m = String::from_str("admin_api_token is too short (");
                    push_decimal(&mut m, len as u64);
                    m.append(" chars); must be at least ");
                    push_decimal(&mut m, MIN_ADMIN_TOKEN_LEN as u64);
                    m.append(" chars. Use `openssl rand -base64 32` to generate a strong token.");
                    return Err(ServerError::Config(m));
                }
                let chars = chars_of(core.as_str());
                if is_repeated(chars.as_slice()) {
                    return Err(
                        ServerError::Config(
                            String::from_str(
                                "admin_api_token is a single repeated character; generate a real random token",
                            ),
                        ),
                    );
                }
            }
        }
        Ok(())
    }

    fn check_metrics(&self) -> (r: ServerResult<()>)
        ensures
            says(r, self.metrics_complaint()),
    {
        if self.enable_metrics && !self.metrics_addr.ip.is_loopback() {
            let secure = match &self.admin_api_token {
                Some(t) => {
                    let core = trimmed(t.as_str());
                    self.enable_admin_api && core.as_str().as_bytes().len() >= MIN_ADMIN_TOKEN_LEN
                },
                None => false,
            };
            if !secure {
                let mut m = String::from_str("enable_metrics is true and metrics_addr (");
                let addr = self.metrics_addr.to_text();
                m.append(addr.as_str());
                m.append(
                    ") is not a loopback address, but no authenticated path is configured. Either bind metrics_addr to 127.0.0.1 (and front it with an authenticated reverse proxy if remote scraping is required), or set enable_admin_api = true with a strong admin_api_token (>=24 chars) so /metrics is served through the authenticated admin endpoint.",
                );
                return Err(ServerError::Config(m));
            }
        }
        Ok(())
    }
}

/// Number of addresses that clients can have.
fn addresses_of(prefix: u8) -> (n: u32)
    requires
        1 <= prefix <= 30,
    ensures
        n == usable_addresses(prefix),
        n >= 2,
{
    let bits: u32 = 32 - prefix as u32;
    proof {
        lemma2_to64();
        if bits < 31 {
            lemma_pow2_strictly_increases(bits as nat, 31);
        }
        if bits > 2 {
            lemma_pow2_strictly_increases(2, bits as nat);
        }
        assert(1 * pow2(bits as nat) == pow2(bits as nat));
        lemma_u32_shl_is_mul(1u32, bits);
    }
    (1u32 << bits) - 2
}

fn value_of(a: &[u8; 4]) -> (n: u32)
    ensures
        n == be_value(a@),
{
    proof {
        reveal_with_fuel(be_value, 5);
        assert(a@.drop_last().drop_last().drop_last().drop_last() =~= Seq::empty());
    }
    a[0] as u32 * 0x100_0000 + a[1] as u32 * 0x1_0000 + a[2] as u32 * 0x100 + a[3] as u32
}

fn in_network(a: &[u8; 4], b: &[u8; 4], prefix: u8) -> (r: bool)
    requires
        1 <= prefix <= 32,
    ensures
        r == same_network(a@, b@, prefix),
{
    let bits: u32 = 32 - prefix as u32;
    let x: u32 = value_of(a);
    let y: u32 = value_of(b);
    proof {
        lemma_u32_shr_is_div(x, bits);
        lemma_u32_shr_is_div(y, bits);
    }
    x >> bits == y >> bits
}

fn same_start(a: &[u8; 16], b: &[u8; 16], n: usize) -> (r: bool)
    requires
        n <= 16,
    ensures
        r == (a@.take(n as int) == b@.take(n as int)),
{
    let mut i: usize = 0;
    while i < n
        invariant
            i <= n <= 16,
            a@.take(i as int) == b@.take(i as int),
        decreases n - i,
    {
        if a[i] != b[i] {
            proof {
                assert(a@.take(n as int)[i as int] != b@.take(n as int)[i as int]);
            }
            return false;
        }
        proof {
            assert(a@.take(i + 1) =~= a@.take(i as int).push(a@[i as int]));
            assert(b@.take(i + 1) =~= b@.take(i as int).push(b@[i as int]));
        }
        i += 1;
    }
    true
}

fn is_repeated(chars: &[char]) -> (b: bool)
    ensures
        b == repeats_one_char(chars@),
{
    if chars.len() == 0 {
        return false;
    }
    let first = chars[0];
    let mut i: usize = 0;
    while i < chars.len()
        invariant
            i <= chars@.len(),
            chars@.len() > 0,
            first == chars@[0],
            forall|k: int| 0 <= k < i ==> #[trigger] chars@[k] == chars@[0],
        decreases chars@.len() - i,
    {
        if chars[i] != first {
            return false;
        }
        i += 1;
    }
    true
}

/// What a parse error says, with where it is and without the line that it is in, which may hold
/// a secret.
pub open spec fn sanitized(message: Seq<char>, span: Option<(usize, usize)>) -> Seq<char> {
    match span {
        Some(s) => "failed to parse config: "@ + message + " (at bytes "@ + decimal(s.0 as nat)
            + ".."@ + decimal(s.1 as nat) + ")"@,
        None => "failed to parse config: "@ + message,
    }
}

/// Summarises a parse error by its message and the bytes where it occurred.
pub fn sanitize_toml_error(message: &str, span: Option<(usize, usize)>) -> (s: String)
    ensures
        s@ == sanitized(message@, span),
{
    let mut s = String::from_str("failed to parse config: ");
    s.append(message);
    if let Some((start, end)) = span {
        s.append(" (at bytes ");
        push_decimal(&mut s, start as u64);
        s.append("..");
        push_decimal(&mut s, end as u64);
        s.append(")");
    }
    s
}

/// A valid configuration never serves metrics to other hosts without a strong token, has a strong
/// admin token when it has one at all, and never has more sessions than addresses.
pub proof fn law_valid_config_is_closed(c: ServerConfig)
    requires
        c.complaint() is None,
    ensures
        !c.exposes_metrics(),
        c.enable_admin_api && c.admin_api_token is Some ==> token_len(c.admin_api_token->0@)
            >= MIN_ADMIN_TOKEN_LEN && !repeats_one_char(trim(c.admin_api_token->0@)),
        v4_pool_of(c.ipv4_pool@) is Ok,
        16 <= v4_pool_of(c.ipv4_pool@)->Ok_0.1 <= 30,
        c.sessions() <= usable_addresses(v4_pool_of(c.ipv4_pool@)->Ok_0.1),
        576 <= c.mtu <= 9000,
        c.session_timeout_secs > 0,
        c.keepalive_interval_secs > 0,
        c.log_file is Some ==> c.log_max_size_mb > 0 && c.log_max_files > 0,
{
}

/// When the number of sessions is left out, it never exceeds the number of addresses of a pool
/// that is large enough to be valid.
pub proof fn law_auto_sessions_fit(c: ServerConfig)
    requires
        c.max_sessions is None,
        v4_pool_of(c.ipv4_pool@) is Ok,
        v4_pool_of(c.ipv4_pool@)->Ok_0.1 <= 30,
    ensures
        c.sessions_complaint(v4_pool_of(c.ipv4_pool@)->Ok_0.1) is None,
{
}

/// A configuration is accepted exactly when its networks hold together, its limits make sense, its
/// sessions have addresses, and nothing is served to other hosts without a strong token.
pub proof fn law_sound_configs_are_accepted(c: ServerConfig)
    ensures
        c.complaint() is None <==> {
            &&& v4_pool_of(c.ipv4_pool@) matches Ok(pool)
            &&& 16 <= pool.1 <= 30
            &&& octets_of(
                c.server_tunnel_ip@,
                "invalid server tunnel IP: "@,
                "invalid IP octet: "@,
            ) matches Ok(server)
            &&& same_network(server, pool.0, pool.1)
            &&& dns_of(texts(c.dns_servers@)) is Ok
            &&& c.ipv6_complaint() is None
            &&& 576 <= c.mtu <= 9000
            &&& c.session_timeout_secs >= 1
            &&& c.keepalive_interval_secs >= 1
            &&& c.log_file is Some ==> c.log_max_size_mb >= 1 && c.log_max_files >= 1
            &&& {
                let level = lowercase(c.min_security_level@);
                level == "level3"@ || level == "level5"@ || level == "3"@ || level == "5"@
            }
            &&& c.sessions() <= usable_addresses(pool.1)
            &&& c.enable_admin_api && c.admin_api_token is Some ==> token_len(
                c.admin_api_token->0@,
            ) >= 24 && !repeats_one_char(trim(c.admin_api_token->0@))
            &&& c.enable_metrics && !c.metrics_addr.ip.loopback() ==> c.enable_admin_api
                && c.admin_api_token is Some && token_len(c.admin_api_token->0@) >= 24
        },
{
}

/// An IPv6 pool is accepted exactly when its prefix is from 48 to 128 bits long, the server has an
/// address in it, and every IPv6 name server is an address; without a pool there is nothing to
/// complain of.
pub proof fn law_sound_ipv6_pools_are_accepted(c: ServerConfig)
    ensures
        c.ipv6_pool is None ==> c.ipv6_complaint() is None,
        c.ipv6_pool is Some ==> (c.ipv6_complaint() is None <==> {
            &&& v6_pool_of(c.ipv6_pool->0@) matches Ok(pool)
            &&& 48 <= pool.1 <= 128
            &&& c.server_tunnel_ipv6 is Some
            &&& v6_octets_of(c.server_tunnel_ipv6->0@, "invalid IPv6 address: "@) matches Ok(server)
            &&& pool.0.take(pool.1 as int / 8) == server.take(pool.1 as int / 8)
            &&& v6_dns_of(texts(c.dns_servers_v6@)) is Ok
        }),
{
}

/// One bit less of prefix doubles a pool, of whose addresses two are not for clients.
pub proof fn law_pools_double(prefix: u8)
    requires
        1 <= prefix <= 31,
    ensures
        usable_addresses(prefix) + 2 == 2 * (usable_addresses((prefix + 1) as u8) + 2),
        usable_addresses(30) == 2,
{
    vstd::arithmetic::power2::lemma_pow2_unfold((32 - prefix) as nat);
    lemma2_to64();
}

/// An address is in a pool exactly when it lies between the first and the last address of it.
pub proof fn law_pools_are_ranges(a: Seq<u8>, base: Seq<u8>, prefix: u8)
    requires
        prefix <= 32,
        be_value(base) % pow2((32 - prefix) as nat) == 0,
    ensures
        same_network(a, base, prefix) <==> be_value(base) <= be_value(a) < be_value(base) + pow2(
            (32 - prefix) as nat,
        ),
{
    let d = pow2((32 - prefix) as nat) as int;
    let x = be_value(a) as int;
    let y = be_value(base) as int;
    vstd::arithmetic::power2::lemma_pow2_pos((32 - prefix) as nat);
    vstd::arithmetic::div_mod::lemma_fundamental_div_mod(x, d);
    vstd::arithmetic::div_mod::lemma_fundamental_div_mod(y, d);
    if x / d == y / d {
    } else if x / d < y / d {
        assert(d * (x / d) + d <= d * (y / d)) by (nonlinear_arith)
            requires
                x / d + 1 <= y / d,
                d > 0,
        ;
    } else {
        assert(d * (y / d) + d <= d * (x / d)) by (nonlinear_arith)
            requires
                y / d + 1 <= x / d,
                d > 0,
        ;
    }
}

/// The number of sessions is the configured one, or else as many as the pool has addresses, but no
/// more than a hundred thousand.
pub proof fn law_sessions_follow_the_pool(c: ServerConfig)
    requires
        v4_pool_of(c.ipv4_pool@) is Ok,
        v4_pool_of(c.ipv4_pool@)->Ok_0.1 <= 30,
    ensures
        ({
            let usable = usable_addresses(v4_pool_of(c.ipv4_pool@)->Ok_0.1);
            &&& c.max_sessions matches Some(n) ==> c.sessions() == n
            &&& c.max_sessions is None ==> c.sessions() <= usable && c.sessions() <= 100_000 && (
            c.sessions() == usable || c.sessions() == 100_000)
        }),
{
}

} // verus!
