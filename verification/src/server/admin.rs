//! Admin REST API for server management.
//!
//! - `GET /api/sessions` - List all active sessions
//! - `GET /api/sessions/{id}` - Get session details
//! - `DELETE /api/sessions/{id}` - Terminate a session
//! - `GET /api/stats` - Get aggregate statistics
//! - `GET /api/health` - Health check
//! - `GET /metrics` - Prometheus metrics (if enabled)
//!
//! All endpoints are rate limited per address. All but the index and the health check ask for a
//! bearer token.

use crate::ip_map::{Expiring, IpMap, fresh};
use crate::net::{IpAddr, SocketAddr, ip_text, socket_text};
use crate::parse::{digits_value, law_numbers_are_read_back, parse_digits};
use crate::relay::rate_limiter::monus;
use crate::server::config::ServerConfig;
use crate::server::metrics::ServerMetrics;
use crate::server::rate_limit::{
    CLEANUP_INTERVAL_SECS, RateLimitEntry, RateState, cleaned, ended, lemma_fresh_is_within, tidied,
    within,
};
use crate::text::{
    chars_of, decimal, hexadecimal, push_decimal, push_hexadecimal, same_text, starts_with, text_of,
    trim, trimmed,
};
use crate::time::Clock;
use vstd::prelude::*;
use vstd::utf8::encode_utf8;

verus! {

/// Maximum concurrent admin API connections.
pub const MAX_CONCURRENT_CONNECTIONS: usize = 100;

/// Default maximum requests per address per minute.
pub const DEFAULT_MAX_REQUESTS_PER_MINUTE: u32 = 100;

/// Maximum tracked addresses.
pub const MAX_TRACKED_IPS: usize = 10_000;

/// When a limited client may try again, in seconds.
pub const RETRY_AFTER_SECS: u64 = 60;

/// Bytes of a SHA-256 digest.
pub const DIGEST_LEN: usize = 32;

/// Whether a request from `addr` is allowed at `now`, and the state afterwards. At capacity a new
/// address is refused.
pub open spec fn admin_ruling(s: RateState, max_per_window: u32, addr: IpAddr, now: u128) -> (
    bool,
    RateState,
) {
    let t = tidied(s, now);
    let m = t.requests;
    if !m.contains_key(addr) && m.dom().len() >= MAX_TRACKED_IPS {
        (false, t)
    } else {
        let e = if m.contains_key(addr) && !ended(m[addr], now) {
            m[addr]
        } else {
            RateLimitEntry { count: 0, window_start: now }
        };
        if e.count >= max_per_window {
            (false, RateState { requests: m.insert(addr, e), ..t })
        } else {
            (
                true,
                RateState {
                    requests: m.insert(
                        addr,
                        RateLimitEntry {
                            count: (e.count + 1) as u32,
                            window_start: e.window_start,
                        },
                    ),
                    ..t
                },
            )
        }
    }
}

/// Requests that an address has left at `now`, `None` when it is not tracked.
pub open spec fn requests_left(
    m: Map<IpAddr, RateLimitEntry>,
    max_per_window: u32,
    addr: IpAddr,
    now: u128,
) -> Option<u32> {
    if !m.contains_key(addr) {
        None
    } else if ended(m[addr], now) {
        Some(max_per_window)
    } else {
        Some(monus(max_per_window as nat, m[addr].count as nat) as u32)
    }
}

/// Rate limiter for admin API requests.
pub struct AdminRateLimiter {
    requests: IpMap<RateLimitEntry>,
    max_per_window: u32,
    last_cleanup: u128,
    clock: Clock,
}

impl AdminRateLimiter {
    /// The windows.
    pub closed spec fn state(self) -> RateState {
        RateState { requests: self.requests@, last_cleanup: self.last_cleanup }
    }

    /// The clock of the windows.
    pub closed spec fn timer(self) -> Clock {
        self.clock
    }

    /// No more addresses are tracked than may be.
    pub closed spec fn wf(self) -> bool {
        within(self.state(), MAX_TRACKED_IPS)
    }

    /// Most requests per window.
    pub closed spec fn limit(self) -> u32 {
        self.max_per_window
    }

    /// Create a new rate limiter with default settings (100 requests per minute).
    pub fn new() -> (l: AdminRateLimiter)
        ensures
            l.wf(),
            l.limit() == DEFAULT_MAX_REQUESTS_PER_MINUTE,
            l.state().requests == Map::<IpAddr, RateLimitEntry>::empty(),
            l.timer().started(),
            l.timer().reads_ns(l.state().last_cleanup),
    {
        Self::with_limit(DEFAULT_MAX_REQUESTS_PER_MINUTE)
    }

    /// Create a new rate limiter with a custom limit.
    pub fn with_limit(max_per_minute: u32) -> (l: AdminRateLimiter)
        ensures
            l.wf(),
            l.limit() == max_per_minute,
            l.state().requests == Map::<IpAddr, RateLimitEntry>::empty(),
            l.timer().started(),
            l.timer().reads_ns(l.state().last_cleanup),
    {
        let clock = Clock::start();
        let now: u128 = clock.now_ns();
        AdminRateLimiter {
            requests: IpMap::new(),
            max_per_window: max_per_minute,
            last_cleanup: now,
            clock,
        }
    }

    /// Check at `now` if a request from the given address should be allowed, and count it.
    pub fn allow_at(&mut self, addr: IpAddr, now: u128) -> (allowed: bool)
        requires
            old(self).wf(),
        ensures
            final(self).wf(),
            final(self).limit() == old(self).limit(),
            final(self).timer() == old(self).timer(),
            (allowed, final(self).state()) == admin_ruling(
                old(self).state(),
                old(self).limit(),
                addr,
                now,
            ),
    {
        proof {
            law_admin_tracking_is_bounded(self.state(), self.max_per_window, addr, now);
        }
        if now.saturating_sub(self.last_cleanup) > CLEANUP_INTERVAL_SECS as u128 * 1_000_000_000 {
            self.last_cleanup = now;
            self.cleanup_at(now);
        }
        let entry = match self.requests.get(&addr) {
            Some(e) => if e.is_stale(now) {
                RateLimitEntry { count: 0, window_start: now }
            } else {
                *e
            },
            None => {
                if self.requests.has_at_least(MAX_TRACKED_IPS) {
                    return false;
                }
                RateLimitEntry { count: 0, window_start: now }
            },
        };
        if entry.count >= self.max_per_window {
            self.requests.insert(addr, entry);
            return false;
        }
        self.requests.insert(
            addr,
            RateLimitEntry { count: entry.count + 1, window_start: entry.window_start },
        );
        true
    }

    /// Check if a request from the given address should be allowed, and count it.
    pub fn allow(&mut self, addr: IpAddr) -> (allowed: bool)
        requires
            old(self).wf(),
        ensures
            final(self).wf(),
            final(self).limit() == old(self).limit(),
            final(self).timer() == old(self).timer(),
            exists|now: u128|
                old(self).timer().reads_ns(now) && (allowed, final(self).state()) == #[trigger] admin_ruling(
                    old(self).state(),
                    old(self).limit(),
                    addr,
                    now,
                ),
    {
        let now: u128 = self.clock.now_ns();
        self.allow_at(addr, now)
    }

    /// Clean up the windows that have ended at `now`.
    pub fn cleanup_at(&mut self, now: u128)
        requires
            old(self).wf(),
        ensures
            final(self).wf(),
            final(self).limit() == old(self).limit(),
            final(self).timer() == old(self).timer(),
            final(self).state() == cleaned(old(self).state(), now),
    {
        proof {
            lemma_fresh_is_within(self.requests@, now);
        }
        self.requests.sweep(now);
    }

    /// Manually clean up expired entries.
    pub fn cleanup(&mut self)
        requires
            old(self).wf(),
        ensures
            final(self).wf(),
            final(self).limit() == old(self).limit(),
            final(self).timer() == old(self).timer(),
            exists|now: u128|
                old(self).timer().reads_ns(now) && final(self).state().requests == #[trigger] fresh(
                    old(self).state().requests,
                    now,
                ),
            final(self).state().last_cleanup == old(self).state().last_cleanup,
    {
        let now: u128 = self.clock.now_ns();
        self.cleanup_at(now);
    }

    /// Get the number of tracked addresses.
    pub fn tracked_ips(&self) -> (n: usize)
        requires
            self.wf(),
        ensures
            n == self.state().requests.dom().len(),
    {
        self.requests.len() as usize
    }

    /// Get remaining requests for an address in the window at `now`.
    pub fn remaining_at(&self, addr: IpAddr, now: u128) -> (r: Option<u32>)
        ensures
            r == requests_left(self.state().requests, self.limit(), addr, now),
    {
        match self.requests.get(&addr) {
            None => None,
            Some(e) => if e.is_stale(now) {
                Some(self.max_per_window)
            } else {
                Some(self.max_per_window.saturating_sub(e.count))
            },
        }
    }

    /// Get remaining requests for an address in the current window.
    pub fn remaining(&self, addr: IpAddr) -> (r: Option<u32>)
        ensures
            exists|now: u128|
                self.timer().reads_ns(now) && r == #[trigger] requests_left(self.state().requests, self.limit(), addr, now),
    {
        let now: u128 = self.clock.now_ns();
        self.remaining_at(addr, now)
    }
}

impl Default for AdminRateLimiter {
    fn default() -> (l: AdminRateLimiter)
        ensures
            l.wf(),
            l.limit() == DEFAULT_MAX_REQUESTS_PER_MINUTE,
            l.state().requests == Map::<IpAddr, RateLimitEntry>::empty(),
            l.timer().started(),
            l.timer().reads_ns(l.state().last_cleanup),
    {
        AdminRateLimiter::new()
    }
}

/// Session information for API response.
#[derive(Debug)]
pub struct SessionInfo {
    /// Session ID (hex encoded).
    pub session_id: String,
    /// Client's UDP address.
    pub client_addr: String,
    /// Allocated tunnel IPv4 address.
    pub tunnel_ip: String,
    /// Allocated tunnel IPv6 address (if dual-stack).
    pub tunnel_ipv6: Option<String>,
    /// Session duration in seconds.
    pub duration_secs: u64,
    /// Time since last activity in seconds.
    pub idle_secs: u64,
    /// Bytes sent to client.
    pub bytes_sent: u64,
    /// Bytes received from client.
    pub bytes_received: u64,
}

/// List of sessions response.
#[derive(Debug)]
pub struct SessionListResponse {
    /// Total session count.
    pub count: usize,
    /// List of sessions.
    pub sessions: Vec<SessionInfo>,
}

/// Server statistics response.
#[derive(Debug, Clone, Copy)]
pub struct StatsResponse {
    /// Server uptime in seconds.
    pub uptime_secs: u64,
    /// Active sessions.
    pub sessions_active: u64,
    /// Total sessions created.
    pub sessions_total: u64,
    /// Bytes sent.
    pub bytes_sent: u64,
    /// Bytes received.
    pub bytes_received: u64,
    /// Packets sent.
    pub packets_sent: u64,
    /// Packets received.
    pub packets_received: u64,
    /// Packets dropped.
    pub packets_dropped: u64,
    /// Successful handshakes.
    pub handshakes_success: u64,
    /// Failed handshakes.
    pub handshakes_failed: u64,
}

/// Health check response.
#[derive(Debug)]
pub struct HealthResponse {
    /// Server status.
    pub status: String,
    /// Server uptime in seconds.
    pub uptime_secs: u64,
    /// Active sessions.
    pub sessions_active: u64,
}

/// Error response.
#[derive(Debug)]
pub struct ErrorResponse {
    /// Error message.
    pub error: String,
}

/// What is known of a session when it is looked at.
#[derive(Debug, Clone, Copy)]
pub struct SessionSnapshot {
    /// Session ID.
    pub session_id: u64,
    /// Client's UDP address.
    pub client_addr: SocketAddr,
    /// Tunnel IPv4 address.
    pub tunnel_ip: u32,
    /// Tunnel IPv6 address.
    pub tunnel_ipv6: Option<u128>,
    /// Session duration in seconds.
    pub duration_secs: u64,
    /// Time since last activity in seconds.
    pub idle_secs: u64,
    /// Bytes sent to client.
    pub bytes_sent: u64,
    /// Bytes received from client.
    pub bytes_received: u64,
}

/// Methods of requests.
#[derive(Debug, Clone, Copy, PartialEq, Eq, Structural)]
pub enum Method {
    Get,
    Post,
    Put,
    Patch,
    Delete,
    Other,
}

impl Method {
    /// Whether requests with this method change something.
    pub open spec fn writes(self) -> bool {
        self == Method::Delete || self == Method::Post || self == Method::Put || self
            == Method::Patch
    }
}

/// What `ring::digest::digest` with SHA-256 makes of bytes.
pub uninterp spec fn sha256_of(data: Seq<u8>) -> Seq<u8>;

/// `ring::digest::digest` with `ring::digest::SHA256`: the digest of the bytes, which always has
/// 32 bytes. What the digest is, is only named.
#[verifier::external_body]
fn sha256(data: &[u8]) -> (d: Vec<u8>)
    requires
        data@.len() < 0x2000_0000_0000_0000,
    ensures
        d@ == sha256_of(data@),
        d@.len() == 32,
{
    ring::digest::digest(&ring::digest::SHA256, data).as_ref().to_vec()
}

/// `subtle::ConstantTimeEq::ct_eq` for slices: whether they hold the same bytes.
#[verifier::external_body]
fn ct_eq(a: &[u8], b: &[u8]) -> (r: bool)
    ensures
        r == (a@ == b@),
{
    subtle::ConstantTimeEq::ct_eq(a, b).into()
}

/// The value of a hexadecimal digit.
pub open spec fn hex_value(b: u8) -> Option<u8> {
    if 0x30 <= b <= 0x39 {
        Some((b - 0x30) as u8)
    } else if 0x61 <= b <= 0x66 {
        Some((b - 0x57) as u8)
    } else if 0x41 <= b <= 0x46 {
        Some((b - 0x37) as u8)
    } else {
        None
    }
}

/// Whether bytes are pairs of hexadecimal digits.
pub open spec fn is_hex(s: Seq<u8>) -> bool {
    s.len() % 2 == 0 && forall|i: int| 0 <= i < s.len() ==> hex_value(#[trigger] s[i]) is Some
}

/// The bytes that pairs of hexadecimal digits stand for.
pub open spec fn unhex(s: Seq<u8>) -> Seq<u8> {
    Seq::new(
        s.len() / 2,
        |i: int| (hex_value(s[2 * i])->0 * 16 + hex_value(s[2 * i + 1])->0) as u8,
    )
}

/// What `hex::decode` says of a text that is not hexadecimal.
pub uninterp spec fn hex_error_of(text: Seq<char>) -> Seq<char>;

/// `hex::decode`: the bytes that pairs of digits stand for, and an error when the number of bytes
/// is odd or one of them is not a digit. What the error says is only named.
#[verifier::external_body]
fn hex_decode(text: &str) -> (r: Result<Vec<u8>, String>)
    ensures
        match r {
            Ok(v) => is_hex(encode_utf8(text@)) && v@ == unhex(encode_utf8(text@)),
            Err(m) => !is_hex(encode_utf8(text@)) && m@ == hex_error_of(text@),
        },
{
    hex::decode(text).map_err(|e| e.to_string())
}

/// Constant-time comparison, in which the time does not depend on where bytes differ.
pub fn constant_time_eq(a: &[u8], b: &[u8]) -> (r: bool)
    ensures
        r == (a@ == b@),
{
    ct_eq(a, b)
}

/// Admin API context: what is served and who may ask.
#[derive(Debug)]
pub struct AdminContext {
    /// Enable Prometheus metrics endpoint.
    pub enable_metrics: bool,
    /// API authentication token (plain text). Ignored when there is a hash.
    pub api_token: Option<String>,
    /// SHA-256 of the admin token.
    pub api_token_sha256: Option<[u8; 32]>,
}

/// The token that a bearer header carries.
pub open spec fn bearer(authorization: Option<Seq<char>>) -> Option<Seq<char>> {
    match authorization {
        Some(h) => if starts_with(h, "Bearer "@) {
            Some(h.skip("Bearer "@.len() as int))
        } else {
            None
        },
        None => None,
    }
}

/// The view of an optional text.
pub open spec fn header_view(h: Option<&str>) -> Option<Seq<char>> {
    match h {
        Some(s) => Some(s@),
        None => None,
    }
}

/// What is wrong with the decoded digest of a token.
pub open spec fn digest_len_text(n: nat) -> Seq<char> {
    "admin_api_token_sha256 must decode to exactly 32 bytes, got "@ + decimal(n)
}

/// Turns the bytes of a decoded digest into a digest.
pub fn digest_from(decoded: &Vec<u8>) -> (r: Result<[u8; 32], String>)
    ensures
        match r {
            Ok(d) => decoded@.len() == 32 && d@ == decoded@,
            Err(m) => decoded@.len() != 32 && m@ == digest_len_text(decoded@.len()),
        },
{
    if decoded.len() != DIGEST_LEN {
        let mut m = String::from_str("admin_api_token_sha256 must decode to exactly 32 bytes, got ");
        push_decimal(&mut m, decoded.len() as u64);
        return Err(m);
    }
    let mut d: [u8; 32] = [0; 32];
    let mut i: usize = 0;
    while i < 32
        invariant
            i <= 32,
            decoded@.len() == 32,
            forall|k: int| 0 <= k < i ==> #[trigger] d@[k] == decoded@[k],
        decreases 32 - i,
    {
        d[i] = decoded[i];
        i += 1;
    }
    proof {
        assert(d@ =~= decoded@);
    }
    Ok(d)
}

/// Whether `r` is the context with the hash that `hex` stands for, or says what is wrong with it.
pub open spec fn hashed(
    r: Result<AdminContext, String>,
    enable_metrics: bool,
    hex: Seq<char>,
) -> bool {
    let core = trim(hex);
    let bytes = encode_utf8(core);
    match r {
        Ok(c) => {
            &&& is_hex(bytes)
            &&& bytes.len() == 64
            &&& c.enable_metrics == enable_metrics
            &&& c.api_token is None
            &&& c.api_token_sha256 matches Some(d)
            &&& d@ == unhex(bytes)
        },
        Err(m) => if !is_hex(bytes) {
            m@ == "admin_api_token_sha256 must be hex: "@ + hex_error_of(core)
        } else {
            bytes.len() != 64 && m@ == digest_len_text(bytes.len() / 2)
        },
    }
}

impl AdminContext {
    /// Whether requests must show a token.
    pub open spec fn guarded(self) -> bool {
        self.api_token is Some || self.api_token_sha256 is Some
    }

    /// Whether a token is the right one. When there is a hash only the hash counts.
    pub open spec fn accepts(self, token: Seq<char>) -> bool {
        match (self.api_token_sha256, self.api_token) {
            (Some(hash), _) => sha256_of(encode_utf8(token)) == hash@,
            (None, Some(t)) => encode_utf8(token) == encode_utf8(t@),
            (None, None) => false,
        }
    }

    /// Whether a request with this header is authenticated; all are when no token is asked for.
    pub open spec fn authenticates(self, authorization: Option<Seq<char>>) -> bool {
        if !self.guarded() {
            true
        } else {
            match bearer(authorization) {
                Some(token) => self.accepts(token),
                None => false,
            }
        }
    }

    /// Create a new admin context.
    pub fn new(enable_metrics: bool) -> (c: AdminContext)
        ensures
            c.enable_metrics == enable_metrics,
            c.api_token is None,
            c.api_token_sha256 is None,
    {
        AdminContext { enable_metrics, api_token: None, api_token_sha256: None }
    }

    /// Create a new admin context with authentication token.
    pub fn with_token(enable_metrics: bool, api_token: Option<String>) -> (c: AdminContext)
        ensures
            c.enable_metrics == enable_metrics,
            c.api_token == api_token,
            c.api_token_sha256 is None,
    {
        AdminContext { enable_metrics, api_token, api_token_sha256: None }
    }

    /// Create a new admin context with a SHA-256-hashed token, in hexadecimal.
    pub fn with_token_hash(enable_metrics: bool, token_sha256_hex: &str) -> (r: Result<
        AdminContext,
        String,
    >)
        ensures
            hashed(r, enable_metrics, token_sha256_hex@),
    {
        let core = trimmed(token_sha256_hex);
        let decoded = match hex_decode(core.as_str()) {
            Ok(v) => v,
            Err(e) => {
                let mut m = String::from_str("admin_api_token_sha256 must be hex: ");
                m.append(e.as_str());
                return Err(m);
            },
        };
        match digest_from(&decoded) {
            Ok(d) => Ok(AdminContext { enable_metrics, api_token: None, api_token_sha256: Some(d) }),
            Err(m) => Err(m),
        }
    }

    /// The context for a configuration. A configured hash takes the place of the token.
    pub fn from_config(config: &ServerConfig) -> (r: Result<AdminContext, String>)
        ensures
            match config.admin_api_token_sha256 {
                Some(h) => hashed(r, config.enable_metrics, h@),
                None => {
                    &&& r matches Ok(c)
                    &&& c.enable_metrics == config.enable_metrics
                    &&& c.api_token_sha256 is None
                    &&& match (c.api_token, config.admin_api_token) {
                        (Some(t), Some(u)) => t@ == u@,
                        (None, None) => true,
                        _ => false,
                    }
                },
            },
    {
        match &config.admin_api_token_sha256 {
            Some(hash) => Self::with_token_hash(config.enable_metrics, hash.as_str()),
            None => {
                let token = match &config.admin_api_token {
                    Some(t) => Some(String::from_str(t.as_str())),
                    None => None,
                };
                Ok(Self::with_token(config.enable_metrics, token))
            },
        }
    }

    /// Whether a digest is that of the token. It is compared in constant time.
    pub fn digest_matches(&self, digest: &[u8]) -> (b: bool)
        ensures
            b == (self.api_token_sha256 matches Some(d) && d@ == digest@),
    {
        match &self.api_token_sha256 {
            Some(expected) => constant_time_eq(digest, expected.as_slice()),
            None => false,
        }
    }

    /// Check if authentication is required and validate the token of the header.
    pub fn check_auth(&self, authorization: Option<&str>) -> (b: bool)
        requires
            authorization matches Some(h) ==> encode_utf8(h@).len() < 0x2000_0000_0000_0000,
        ensures
            b == self.authenticates(header_view(authorization)),
    {
        if self.api_token.is_none() && self.api_token_sha256.is_none() {
            return true;
        }
        let header = match authorization {
            Some(h) => h,
            None => {
                return false;
            },
        };
        let chars = chars_of(header);
        let prefix = chars_of("Bearer ");
        let n: usize = prefix.len();
        if chars.len() < n {
            return false;
        }
        let head = text_of(chars.as_slice(), 0, n);
        proof {
            assert(chars@.subrange(0, n as int) =~= header@.take(n as int));
        }
        if !same_text(head.as_str(), "Bearer ") {
            return false;
        }
        let token = text_of(chars.as_slice(), n, chars.len());
        proof {
            assert(chars@.subrange(n as int, chars@.len() as int) =~= header@.skip(n as int));
            lemma_suffix_is_shorter(header@, n as int);
        }
        if self.api_token_sha256.is_some() {
            let digest = sha256(token.as_str().as_bytes());
            return self.digest_matches(digest.as_slice());
        }
        match &self.api_token {
            Some(expected) => constant_time_eq(
                token.as_str().as_bytes(),
                expected.as_str().as_bytes(),
            ),
            None => false,
        }
    }
}

/// The end of a text has no more bytes than the text.
proof fn lemma_suffix_is_shorter(s: Seq<char>, n: int)
    requires
        0 <= n <= s.len(),
    ensures
        encode_utf8(s.skip(n)).len() <= encode_utf8(s).len(),
    decreases n,
{
    if n == 0 {
        assert(s.skip(0) =~= s);
    } else {
        lemma_suffix_is_shorter(s.drop_first(), n - 1);
        assert(s.drop_first().skip(n - 1) =~= s.skip(n));
        reveal_with_fuel(encode_utf8, 2);
    }
}

/// Endpoints that ask for no token.
pub open spec fn is_public(path: Seq<char>) -> bool {
    path == "/"@ || path == "/api"@ || path == "/health"@ || path == "/api/health"@
}

/// Endpoints that are not served at all without a token.
pub open spec fn is_sensitive(path: Seq<char>) -> bool {
    starts_with(path, "/api/sessions"@) || path == "/api/stats"@ || path == "/metrics"@
}

/// What a request may do.
#[derive(Debug, Clone, Copy, PartialEq, Eq, Structural)]
pub enum Access {
    /// It is served.
    Granted,
    /// It lacks the right token.
    Unauthorized,
    /// It asks for what is not served while no token is configured.
    NotConfigured,
}

/// Where a request leads.
#[derive(Debug, Clone, Copy, PartialEq, Eq, Structural)]
pub enum AdminRoute {
    /// Too many requests came from the address.
    Limited,
    /// The right token is missing.
    Unauthorized,
    /// No token is configured.
    NotConfigured,
    /// All sessions.
    List,
    /// One session; `None` when its ID cannot be read.
    Show(Option<u64>),
    /// The end of one session; `None` when its ID cannot be read.
    Terminate(Option<u64>),
    /// Statistics.
    Stats,
    /// Health check.
    Health,
    /// Prometheus metrics.
    Metrics,
    /// What the API offers.
    Index,
    /// Nowhere.
    NotFound,
}

impl AdminContext {
    /// What a request may do.
    pub open spec fn access(
        self,
        method: Method,
        path: Seq<char>,
        authorization: Option<Seq<char>>,
    ) -> Access {
        if is_public(path) {
            Access::Granted
        } else if self.guarded() {
            if self.authenticates(authorization) {
                Access::Granted
            } else {
                Access::Unauthorized
            }
        } else if method.writes() || is_sensitive(path) {
            Access::NotConfigured
        } else {
            Access::Granted
        }
    }

    /// Decides what a request may do.
    pub fn check_access(&self, method: Method, path: &str, authorization: Option<&str>) -> (a:
        Access)
        requires
            authorization matches Some(h) ==> encode_utf8(h@).len() < 0x2000_0000_0000_0000,
        ensures
            a == self.access(method, path@, header_view(authorization)),
    {
        if same_text(path, "/") || same_text(path, "/api") || same_text(path, "/health")
            || same_text(path, "/api/health") {
            return Access::Granted;
        }
        if self.api_token.is_some() || self.api_token_sha256.is_some() {
            if self.check_auth(authorization) {
                return Access::Granted;
            }
            return Access::Unauthorized;
        }
        let writes = match method {
            Method::Delete | Method::Post | Method::Put | Method::Patch => true,
            _ => false,
        };
        if writes || after(path, "/api/sessions").is_some() || same_text(path, "/api/stats")
            || same_text(path, "/metrics") {
            Access::NotConfigured
        } else {
            Access::Granted
        }
    }
}

/// What follows a prefix.
pub open spec fn rest_of(s: Seq<char>, prefix: Seq<char>) -> Option<Seq<char>> {
    if starts_with(s, prefix) {
        Some(s.skip(prefix.len() as int))
    } else {
        None
    }
}

fn after(text: &str, prefix: &str) -> (r: Option<String>)
    ensures
        match r {
            Some(s) => rest_of(text@, prefix@) == Some(s@),
            None => rest_of(text@, prefix@) is None,
        },
{
    let chars = chars_of(text);
    let p = chars_of(prefix);
    if chars.len() < p.len() {
        return None;
    }
    let head = text_of(chars.as_slice(), 0, p.len());
    proof {
        assert(chars@.subrange(0, p@.len() as int) =~= text@.take(p@.len() as int));
        assert(chars@.subrange(p@.len() as int, chars@.len() as int) =~= text@.skip(
            p@.len() as int,
        ));
    }
    if same_text(head.as_str(), prefix) {
        Some(text_of(chars.as_slice(), p.len(), chars.len()))
    } else {
        None
    }
}

/// The session ID that hexadecimal digits, which a plus sign may precede, stand for.
pub open spec fn session_id_of(s: Seq<char>) -> Option<u64> {
    let d = if s.len() > 1 && s[0] == '+' {
        s.skip(1)
    } else {
        s
    };
    match digits_value(d, 16) {
        Some(n) => if n <= u64::MAX {
            Some(n as u64)
        } else {
            None
        },
        None => None,
    }
}

/// Reads a session ID.
pub fn parse_session_id(text: &str) -> (r: Option<u64>)
    ensures
        r == session_id_of(text@),
{
    let chars = chars_of(text);
    let from: usize = if chars.len() > 1 && chars[0] == '+' {
        1
    } else {
        0
    };
    proof {
        assert(chars@.skip(0) =~= chars@);
    }
    parse_digits(chars.as_slice(), from, 16, u64::MAX)
}

/// Where a request that is served leads.
pub open spec fn route_of(method: Method, path: Seq<char>, enable_metrics: bool) -> AdminRoute {
    let id = rest_of(path, "/api/sessions/"@);
    if method == Method::Get {
        if path == "/api/sessions"@ {
            AdminRoute::List
        } else if id is Some {
            AdminRoute::Show(session_id_of(id->0))
        } else if path == "/api/stats"@ {
            AdminRoute::Stats
        } else if path == "/api/health"@ || path == "/health"@ {
            AdminRoute::Health
        } else if path == "/metrics"@ && enable_metrics {
            AdminRoute::Metrics
        } else if path == "/"@ || path == "/api"@ {
            AdminRoute::Index
        } else {
            AdminRoute::NotFound
        }
    } else if method == Method::Delete && id is Some {
        AdminRoute::Terminate(session_id_of(id->0))
    } else {
        AdminRoute::NotFound
    }
}

/// Finds where a request that is served leads.
pub fn find_route(method: Method, path: &str, enable_metrics: bool) -> (r: AdminRoute)
    ensures
        r == route_of(method, path@, enable_metrics),
{
    let id = after(path, "/api/sessions/");
    match method {
        Method::Get => {
            if same_text(path, "/api/sessions") {
                return AdminRoute::List;
            }
            if let Some(text) = id {
                return AdminRoute::Show(parse_session_id(text.as_str()));
            }
            if same_text(path, "/api/stats") {
                AdminRoute::Stats
            } else if same_text(path, "/api/health") || same_text(path, "/health") {
                AdminRoute::Health
            } else if same_text(path, "/metrics") && enable_metrics {
                AdminRoute::Metrics
            } else if same_text(path, "/") || same_text(path, "/api") {
                AdminRoute::Index
            } else {
                AdminRoute::NotFound
            }
        },
        Method::Delete => match id {
            Some(text) => AdminRoute::Terminate(parse_session_id(text.as_str())),
            None => AdminRoute::NotFound,
        },
        _ => AdminRoute::NotFound,
    }
}

/// Where a request leads that was or was not within its limit.
pub open spec fn outcome_of(
    allowed: bool,
    ctx: AdminContext,
    method: Method,
    path: Seq<char>,
    authorization: Option<Seq<char>>,
) -> AdminRoute {
    if !allowed {
        AdminRoute::Limited
    } else {
        match ctx.access(method, path, authorization) {
            Access::Unauthorized => AdminRoute::Unauthorized,
            Access::NotConfigured => AdminRoute::NotConfigured,
            Access::Granted => route_of(method, path, ctx.enable_metrics),
        }
    }
}

/// Decides at `now` where a request leads, and counts it against its address.
pub fn handle_request_at(
    ctx: &AdminContext,
    limiter: &mut AdminRateLimiter,
    client_ip: IpAddr,
    now: u128,
    method: Method,
    path: &str,
    authorization: Option<&str>,
) -> (r: AdminRoute)
    requires
        old(limiter).wf(),
        authorization matches Some(h) ==> encode_utf8(h@).len() < 0x2000_0000_0000_0000,
    ensures
        final(limiter).wf(),
        final(limiter).limit() == old(limiter).limit(),
        final(limiter).timer() == old(limiter).timer(),
        final(limiter).state() == admin_ruling(
            old(limiter).state(),
            old(limiter).limit(),
            client_ip,
            now,
        ).1,
        r == outcome_of(
            admin_ruling(old(limiter).state(), old(limiter).limit(), client_ip, now).0,
            *ctx,
            method,
            path@,
            header_view(authorization),
        ),
{
    if !limiter.allow_at(client_ip, now) {
        return AdminRoute::Limited;
    }
    match ctx.check_access(method, path, authorization) {
        Access::Unauthorized => AdminRoute::Unauthorized,
        Access::NotConfigured => AdminRoute::NotConfigured,
        Access::Granted => find_route(method, path, ctx.enable_metrics),
    }
}

/// Decides where a request leads, and counts it against its address.
pub fn handle_request(
    ctx: &AdminContext,
    limiter: &mut AdminRateLimiter,
    client_ip: IpAddr,
    method: Method,
    path: &str,
    authorization: Option<&str>,
) -> (r: AdminRoute)
    requires
        old(limiter).wf(),
        authorization matches Some(h) ==> encode_utf8(h@).len() < 0x2000_0000_0000_0000,
    ensures
        final(limiter).wf(),
        final(limiter).limit() == old(limiter).limit(),
        final(limiter).timer() == old(limiter).timer(),
        exists|now: u128| #[trigger]
            old(limiter).timer().reads_ns(now) && final(limiter).state() == admin_ruling(
                old(limiter).state(),
                old(limiter).limit(),
                client_ip,
                now,
            ).1 && r == outcome_of(
                admin_ruling(old(limiter).state(), old(limiter).limit(), client_ip, now).0,
                *ctx,
                method,
                path@,
                header_view(authorization),
            ),
{
    let now: u128 = limiter.clock.now_ns();
    handle_request_at(ctx, limiter, client_ip, now, method, path, authorization)
}

/// A response without its encoding.
#[derive(Debug)]
pub enum AdminReply {
    /// All sessions.
    Sessions(SessionListResponse),
    /// One session.
    Session(SessionInfo),
    /// Statistics.
    Stats(StatsResponse),
    /// Health check.
    Health(HealthResponse),
    /// A text in the given format.
    Text(&'static str, String),
    /// Nothing, for the session was terminated.
    NoContent,
    /// An error with its status.
    Error(u16, ErrorResponse),
    /// Too many requests; the text is the body.
    TooManyRequests(&'static str),
}

impl AdminReply {
    /// The status code.
    pub fn status(&self) -> (s: u16)
        ensures
            s == (match *self {
                AdminReply::NoContent => 204,
                AdminReply::Error(status, _) => status,
                AdminReply::TooManyRequests(_) => 429,
                _ => 200,
            }),
    {
        match self {
            AdminReply::NoContent => 204,
            AdminReply::Error(status, _) => *status,
            AdminReply::TooManyRequests(_) => 429,
            _ => 200,
        }
    }

    /// The format of the body, `None` when there is none.
    pub fn content_type(&self) -> (s: Option<&'static str>)
        ensures
            header_view(s) == (match *self {
                AdminReply::NoContent => None,
                AdminReply::Text(kind, _) => Some(kind@),
                _ => Some("application/json"@),
            }),
    {
        match self {
            AdminReply::NoContent => None,
            AdminReply::Text(kind, _) => Some(*kind),
            _ => Some("application/json"),
        }
    }

    /// After how many seconds to try again.
    pub fn retry_after(&self) -> (s: Option<u64>)
        ensures
            s == (if *self is TooManyRequests {
                Some(RETRY_AFTER_SECS)
            } else {
                None
            }),
    {
        match self {
            AdminReply::TooManyRequests(_) => Some(RETRY_AFTER_SECS),
            _ => None,
        }
    }
}

/// The response to a request beyond the limit.
pub fn rate_limit_response() -> (r: AdminReply)
    ensures
        r matches AdminReply::TooManyRequests(b) && b@
            == "{\"error\":\"Rate limit exceeded. Please try again later.\"}"@,
{
    AdminReply::TooManyRequests("{\"error\":\"Rate limit exceeded. Please try again later.\"}")
}

/// Whether a reply is the error with this status and message.
pub open spec fn is_error(r: AdminReply, status: u16, message: Seq<char>) -> bool {
    r matches AdminReply::Error(s, e) && s == status && e.error@ == message
}

/// Create an error response.
fn json_error(status: u16, message: &str) -> (r: AdminReply)
    ensures
        is_error(r, status, message@),
{
    AdminReply::Error(status, ErrorResponse { error: String::from_str(message) })
}

/// Whether session information is what a snapshot shows.
pub open spec fn shows(i: SessionInfo, s: SessionSnapshot) -> bool {
    &&& i.session_id@ == hexadecimal(s.session_id as nat)
    &&& i.client_addr@ == socket_text(s.client_addr)
    &&& i.tunnel_ip@ == ip_text(IpAddr::V4(s.tunnel_ip))
    &&& match (i.tunnel_ipv6, s.tunnel_ipv6) {
        (Some(t), Some(a)) => t@ == ip_text(IpAddr::V6(a)),
        (None, None) => true,
        _ => false,
    }
    &&& i.duration_secs == s.duration_secs
    &&& i.idle_secs == s.idle_secs
    &&& i.bytes_sent == s.bytes_sent
    &&& i.bytes_received == s.bytes_received
}

/// What the API says of a session.
pub fn session_info(s: &SessionSnapshot) -> (i: SessionInfo)
    ensures
        shows(i, *s),
{
    let mut id = String::new();
    push_hexadecimal(&mut id, s.session_id);
    proof {
        assert(id@ =~= hexadecimal(s.session_id as nat));
    }
    SessionInfo {
        session_id: id,
        client_addr: s.client_addr.to_text(),
        tunnel_ip: IpAddr::V4(s.tunnel_ip).to_text(),
        tunnel_ipv6: match s.tunnel_ipv6 {
            Some(a) => Some(IpAddr::V6(a).to_text()),
            None => None,
        },
        duration_secs: s.duration_secs,
        idle_secs: s.idle_secs,
        bytes_sent: s.bytes_sent,
        bytes_received: s.bytes_received,
    }
}

/// Handle GET /api/sessions: all sessions in the order given.
pub fn handle_list_sessions(sessions: &Vec<SessionSnapshot>) -> (r: AdminReply)
    ensures
        r matches AdminReply::Sessions(l) && l.count == sessions@.len() && l.sessions@.len()
            == sessions@.len() && (forall|i: int|
            0 <= i < sessions@.len() ==> shows(#[trigger] l.sessions@[i], sessions@[i])),
{
    let mut list: Vec<SessionInfo> = Vec::new();
    let mut i: usize = 0;
    while i < sessions.len()
        invariant
            i <= sessions@.len(),
            list@.len() == i,
            forall|k: int| 0 <= k < i ==> shows(#[trigger] list@[k], sessions@[k]),
        decreases sessions@.len() - i,
    {
        list.push(session_info(&sessions[i]));
        i += 1;
    }
    AdminReply::Sessions(SessionListResponse { count: list.len(), sessions: list })
}

/// Handle GET /api/sessions/{id}, given what was found under the ID.
pub fn handle_get_session(id: Option<u64>, found: Option<&SessionSnapshot>) -> (r: AdminReply)
    ensures
        match (id, found) {
            (None, _) => is_error(r, 400, "Invalid session ID format"@),
            (Some(_), Some(s)) => r matches AdminReply::Session(i) && shows(i, *s),
            (Some(_), None) => is_error(r, 404, "Session not found"@),
        },
{
    match (id, found) {
        (None, _) => json_error(400, "Invalid session ID format"),
        (Some(_), Some(s)) => AdminReply::Session(session_info(s)),
        (Some(_), None) => json_error(404, "Session not found"),
    }
}

/// Handle DELETE /api/sessions/{id}, given whether there was a session to remove.
pub fn handle_delete_session(id: Option<u64>, removed: bool) -> (r: AdminReply)
    ensures
        match id {
            None => is_error(r, 400, "Invalid session ID format"@),
            Some(_) => if removed {
                r is NoContent
            } else {
                is_error(r, 404, "Session not found"@)
            },
        },
{
    match id {
        None => json_error(400, "Invalid session ID format"),
        Some(_) => if removed {
            AdminReply::NoContent
        } else {
            json_error(404, "Session not found")
        },
    }
}

/// The statistics after `uptime` seconds.
pub open spec fn stats_of(m: ServerMetrics, uptime: u64) -> StatsResponse {
    let s = m.summary_of(uptime);
    StatsResponse {
        uptime_secs: s.uptime_secs,
        sessions_active: s.sessions_active,
        sessions_total: s.sessions_total,
        bytes_sent: s.bytes_sent,
        bytes_received: s.bytes_received,
        packets_sent: s.packets_sent,
        packets_received: s.packets_received,
        packets_dropped: s.packets_dropped,
        handshakes_success: s.handshakes_success,
        handshakes_failed: s.handshakes_failed,
    }
}

/// Handle GET /api/stats after `uptime` seconds.
pub fn handle_stats(metrics: &ServerMetrics, uptime: u64) -> (r: StatsResponse)
    ensures
        r == stats_of(*metrics, uptime),
{
    let s = metrics.summary_at(uptime);
    StatsResponse {
        uptime_secs: s.uptime_secs,
        sessions_active: s.sessions_active,
        sessions_total: s.sessions_total,
        bytes_sent: s.bytes_sent,
        bytes_received: s.bytes_received,
        packets_sent: s.packets_sent,
        packets_received: s.packets_received,
        packets_dropped: s.packets_dropped,
        handshakes_success: s.handshakes_success,
        handshakes_failed: s.handshakes_failed,
    }
}

/// Handle GET /api/health after `uptime` seconds.
pub fn handle_health(metrics: &ServerMetrics, uptime: u64) -> (r: HealthResponse)
    ensures
        r.status@ == "healthy"@,
        r.uptime_secs == metrics.summary_of(uptime).uptime_secs,
        r.sessions_active == metrics.summary_of(uptime).sessions_active,
{
    let s = metrics.summary_at(uptime);
    HealthResponse {
        status: String::from_str("healthy"),
        uptime_secs: s.uptime_secs,
        sessions_active: s.sessions_active,
    }
}

/// What the index says.
pub open spec fn index_text() -> Seq<char> {
    "{\n  \"name\": \"HPN VPN Server Admin API\",\n  \"version\": \"0.1.0\",\n  \"endpoints\": {\n    \"sessions\": \"/api/sessions\",\n    \"stats\": \"/api/stats\",\n    \"health\": \"/api/health\",\n    \"metrics\": \"/metrics\"\n  }\n}"@
}

/// The reply to a request that asks nothing of the sessions, `None` for one that does.
pub fn reply_without_sessions(route: AdminRoute, metrics: &ServerMetrics, uptime: u64) -> (r:
    Option<AdminReply>)
    requires
        metrics.latency_buckets.wf(),
    ensures
        match route {
            AdminRoute::List | AdminRoute::Show(_) | AdminRoute::Terminate(_) => r is None,
            AdminRoute::Limited => r matches Some(AdminReply::TooManyRequests(b)) && b@
                == "{\"error\":\"Rate limit exceeded. Please try again later.\"}"@,
            AdminRoute::Unauthorized => r is Some && is_error(
                r->0,
                401,
                "Authentication required. Provide Authorization: Bearer <token>"@,
            ),
            AdminRoute::NotConfigured => r is Some && is_error(
                r->0,
                403,
                "Admin API token not configured. Set 'admin_api_token' in server config."@,
            ),
            AdminRoute::Stats => r matches Some(AdminReply::Stats(s)) && s == stats_of(
                *metrics,
                uptime,
            ),
            AdminRoute::Health => r matches Some(AdminReply::Health(h)) && h.status@ == "healthy"@
                && h.uptime_secs == uptime && h.sessions_active == metrics.summary_of(
                uptime,
            ).sessions_active,
            AdminRoute::Metrics => r matches Some(AdminReply::Text(kind, body)) && kind@
                == "text/plain; version=0.0.4; charset=utf-8"@ && body@ == metrics.prometheus_text(
                uptime,
            ),
            AdminRoute::Index => r matches Some(AdminReply::Text(kind, body)) && kind@
                == "application/json"@ && body@ == index_text(),
            AdminRoute::NotFound => r is Some && is_error(r->0, 404, "Not Found"@),
        },
{
    match route {
        AdminRoute::List | AdminRoute::Show(_) | AdminRoute::Terminate(_) => None,
        AdminRoute::Limited => Some(rate_limit_response()),
        AdminRoute::Unauthorized => Some(
            json_error(401, "Authentication required. Provide Authorization: Bearer <token>"),
        ),
        AdminRoute::NotConfigured => Some(
            json_error(
                403,
                "Admin API token not configured. Set 'admin_api_token' in server config.",
            ),
        ),
        AdminRoute::Stats => Some(AdminReply::Stats(handle_stats(metrics, uptime))),
        AdminRoute::Health => Some(AdminReply::Health(handle_health(metrics, uptime))),
        AdminRoute::Metrics => Some(
            AdminReply::Text(
                "text/plain; version=0.0.4; charset=utf-8",
                metrics.export_prometheus_at(uptime),
            ),
        ),
        AdminRoute::Index => Some(
            AdminReply::Text(
                "application/json",
                String::from_str(
                    "{\n  \"name\": \"HPN VPN Server Admin API\",\n  \"version\": \"0.1.0\",\n  \"endpoints\": {\n    \"sessions\": \"/api/sessions\",\n    \"stats\": \"/api/stats\",\n    \"health\": \"/api/health\",\n    \"metrics\": \"/metrics\"\n  }\n}",
                ),
            ),
        ),
        AdminRoute::NotFound => Some(json_error(404, "Not Found")),
    }
}

/// Where sessions, statistics or metrics are shown or a session is terminated.
pub open spec fn reveals(r: AdminRoute) -> bool {
    r == AdminRoute::List || r is Show || r is Terminate || r == AdminRoute::Stats || r
        == AdminRoute::Metrics
}

/// Sessions, statistics and metrics are reached only with the right token, whichever way it is
/// configured; without a configured token they are not reached at all.
pub proof fn law_nothing_is_revealed_without_the_token(
    ctx: AdminContext,
    allowed: bool,
    method: Method,
    path: Seq<char>,
    authorization: Option<Seq<char>>,
)
    requires
        reveals(outcome_of(allowed, ctx, method, path, authorization)),
    ensures
        ctx.guarded(),
        bearer(authorization) is Some,
        ctx.accepts(bearer(authorization)->0),
{
    if is_public(path) {
        lemma_public_paths_reveal_nothing(method, path, ctx.enable_metrics);
    }
    lemma_revealing_is_sensitive(method, path, ctx.enable_metrics);
}

proof fn lemma_public_paths_reveal_nothing(method: Method, path: Seq<char>, enable_metrics: bool)
    requires
        is_public(path),
    ensures
        !reveals(route_of(method, path, enable_metrics)),
{
    reveal_strlit("/");
    reveal_strlit("/api");
    reveal_strlit("/health");
    reveal_strlit("/api/health");
    reveal_strlit("/api/sessions");
    reveal_strlit("/api/sessions/");
    reveal_strlit("/api/stats");
    reveal_strlit("/metrics");
    assert("/health"@[1] != "/metrics"@[1]);
    assert("/api/health"@[5] != "/api/stats"@[5]);
}

proof fn lemma_revealing_is_sensitive(method: Method, path: Seq<char>, enable_metrics: bool)
    requires
        reveals(route_of(method, path, enable_metrics)),
    ensures
        is_sensitive(path),
{
    reveal_strlit("/api/sessions");
    reveal_strlit("/api/sessions/");
    let short = "/api/sessions"@;
    let long = "/api/sessions/"@;
    assert(long.take(13) =~= short);
    if starts_with(path, long) {
        assert(path.take(13) =~= path.take(14).take(13));
    }
    if path == short {
        assert(path.take(13) =~= path);
    }
}

/// The index and the health check never ask for a token.
pub proof fn law_health_is_public(
    ctx: AdminContext,
    path: Seq<char>,
    a: Option<Seq<char>>,
    b: Option<Seq<char>>,
)
    requires
        is_public(path),
    ensures
        outcome_of(true, ctx, Method::Get, path, a) == outcome_of(true, ctx, Method::Get, path, b),
        path == "/health"@ || path == "/api/health"@ ==> outcome_of(true, ctx, Method::Get, path, a)
            == AdminRoute::Health,
{
    lemma_public_paths_reveal_nothing(Method::Get, path, ctx.enable_metrics);
}

/// When there is a hash, the plain token plays no part.
pub proof fn law_hash_takes_priority(
    a: AdminContext,
    b: AdminContext,
    authorization: Option<Seq<char>>,
)
    requires
        a.api_token_sha256 is Some,
        a.api_token_sha256 == b.api_token_sha256,
    ensures
        a.authenticates(authorization) == b.authenticates(authorization),
{
}

/// What is let through is counted, and the count never goes beyond the limit.
pub proof fn law_limit_holds(s: RateState, max: u32, addr: IpAddr, now: u128)
    requires
        s.requests.contains_key(addr) ==> s.requests[addr].count <= max,
        max > 0,
    ensures
        ({
            let (allowed, t) = admin_ruling(s, max, addr, now);
            &&& t.requests.contains_key(addr) ==> t.requests[addr].count <= max
            &&& allowed ==> t.requests.contains_key(addr) && t.requests[addr].count >= 1
            &&& allowed && s.requests.contains_key(addr) && !ended(s.requests[addr], now)
                ==> t.requests[addr].count == s.requests[addr].count + 1
        }),
{
}

/// Whatever requests come, no more addresses are tracked than may be.
pub proof fn law_admin_tracking_is_bounded(s: RateState, max: u32, addr: IpAddr, now: u128)
    requires
        within(s, MAX_TRACKED_IPS),
    ensures
        within(admin_ruling(s, max, addr, now).1, MAX_TRACKED_IPS),
{
    lemma_fresh_is_within(s.requests, now);
    let m = tidied(s, now).requests;
    if m.contains_key(addr) {
        assert(m.dom().insert(addr) =~= m.dom());
    }
}

/// How many of the requests at `ts`, all of them from `addr`, are let through, and the state
/// afterwards.
pub open spec fn after_admin_requests(s: RateState, max: u32, addr: IpAddr, ts: Seq<u128>) -> (
    nat,
    RateState,
)
    decreases ts.len(),
{
    if ts.len() == 0 {
        (0, s)
    } else {
        let p = after_admin_requests(s, max, addr, ts.drop_last());
        let r = admin_ruling(p.1, max, addr, ts.last());
        (p.0 + (if r.0 {
            1nat
        } else {
            0nat
        }), r.1)
    }
}

/// Within a window an address gets as many requests through as its limit leaves, and no more.
pub proof fn law_admin_limit_per_window(s: RateState, max: u32, addr: IpAddr, ts: Seq<u128>)
    requires
        s.requests.contains_key(addr),
        s.requests[addr].count <= max,
        forall|i: int| 0 <= i < ts.len() ==> !ended(s.requests[addr], #[trigger] ts[i]),
    ensures
        ({
            let after = after_admin_requests(s, max, addr, ts);
            let left = max - s.requests[addr].count;
            &&& after.0 == (if ts.len() <= left {
                ts.len() as int
            } else {
                left
            })
            &&& after.1.requests.contains_key(addr)
            &&& after.1.requests[addr].count == s.requests[addr].count + after.0
            &&& after.1.requests[addr].window_start == s.requests[addr].window_start
        }),
    decreases ts.len(),
{
    if ts.len() > 0 {
        let prior = ts.drop_last();
        assert forall|i: int| 0 <= i < prior.len() implies !ended(
            s.requests[addr],
            #[trigger] prior[i],
        ) by {
            assert(prior[i] == ts[i]);
        }
        law_admin_limit_per_window(s, max, addr, prior);
        assert(!ended(s.requests[addr], ts[ts.len() - 1]));
    }
}

/// Requests from one address do not count against another.
pub proof fn law_addresses_are_independent(
    s: RateState,
    max: u32,
    a: IpAddr,
    b: IpAddr,
    now: u128,
)
    requires
        a != b,
        monus(now as nat, s.last_cleanup as nat) <= CLEANUP_INTERVAL_SECS * 1_000_000_000,
    ensures
        admin_ruling(s, max, a, now).1.requests.contains_key(b) == s.requests.contains_key(b),
        s.requests.contains_key(b) ==> admin_ruling(s, max, a, now).1.requests[b] == s.requests[b],
{
}

/// An address that was refused may ask again in a new window: once a minute is over, its count
/// begins anew with this request.
pub proof fn law_a_new_admin_window_begins_anew(s: RateState, max: u32, addr: IpAddr, now: u128)
    requires
        max > 0,
        within(s, 10_000),
        s.requests.contains_key(addr),
        now > s.requests[addr].window_start + 60_000_000_000,
    ensures
        admin_ruling(s, max, addr, now).0,
        admin_ruling(s, max, addr, now).1.requests[addr].count == 1,
        admin_ruling(s, max, addr, now).1.requests[addr].window_start == now,
        requests_left(s.requests, max, addr, now) == Some(max),
{
    let kept = fresh(s.requests, now).dom();
    assert(kept.subset_of(s.requests.dom().remove(addr)));
    vstd::set_lib::lemma_len_subset(kept, s.requests.dom().remove(addr));
}

/// Within its minute a request passes exactly while requests are left, and takes one of them.
pub proof fn law_admin_requests_are_counted(s: RateState, max: u32, addr: IpAddr, now: u128)
    requires
        s.requests.contains_key(addr),
        now <= s.requests[addr].window_start + 60_000_000_000,
        s.requests[addr].count <= max,
    ensures
        ({
            let r = admin_ruling(s, max, addr, now);
            let left = max - s.requests[addr].count;
            &&& r.0 <==> left > 0
            &&& requests_left(s.requests, max, addr, now) == Some(left as u32)
            &&& requests_left(r.1.requests, max, addr, now) == Some(
                (if left > 0 {
                    left - 1
                } else {
                    0
                }) as u32,
            )
            &&& r.1.requests[addr].window_start == s.requests[addr].window_start
        }),
{
}

/// A new address is served as long as there is room for it, and refused where there is none.
pub proof fn law_new_admin_addresses_need_room(s: RateState, max: u32, addr: IpAddr, now: u128)
    requires
        !s.requests.contains_key(addr),
        within(s, 10_000),
    ensures
        requests_left(s.requests, max, addr, now) is None,
        max > 0 && s.requests.dom().len() < 10_000 ==> admin_ruling(s, max, addr, now).0
            && admin_ruling(s, max, addr, now).1.requests[addr] == (RateLimitEntry {
            count: 1,
            window_start: now,
        }),
        s.requests.dom().len() >= 10_000 && now <= s.last_cleanup + 300_000_000_000
            ==> !admin_ruling(s, max, addr, now).0 && admin_ruling(s, max, addr, now).1 == s,
{
    lemma_fresh_is_within(s.requests, now);
}

/// The cleanup, due after five minutes, takes away exactly the windows that have ended.
pub proof fn law_admin_cleanup_takes_ended_windows(
    s: RateState,
    max: u32,
    addr: IpAddr,
    other: IpAddr,
    now: u128,
)
    requires
        other != addr,
        s.requests.contains_key(other),
    ensures
        ({
            let r = admin_ruling(s, max, addr, now).1;
            let due = now > s.last_cleanup + 300_000_000_000;
            let over = now > s.requests[other].window_start + 60_000_000_000;
            &&& r.requests.contains_key(other) <==> !(due && over)
            &&& r.requests.contains_key(other) ==> r.requests[other] == s.requests[other]
        }),
{
}

/// A request beyond the limit leads nowhere, whatever it asks for and whatever token it shows.
pub proof fn law_limited_requests_learn_nothing(
    ctx: AdminContext,
    method: Method,
    path: Seq<char>,
    authorization: Option<Seq<char>>,
)
    ensures
        outcome_of(false, ctx, method, path, authorization) == AdminRoute::Limited,
        !(outcome_of(true, ctx, method, path, authorization) is Limited),
{
}

/// The right token opens every endpoint, and without it every one that is not public answers that
/// it is missing.
pub proof fn law_the_token_decides(
    ctx: AdminContext,
    method: Method,
    path: Seq<char>,
    token: Seq<char>,
    other: Option<Seq<char>>,
)
    requires
        ctx.guarded(),
        ctx.accepts(token),
        bearer(other) matches Some(t) ==> !ctx.accepts(t),
    ensures
        ctx.access(method, path, Some("Bearer "@ + token)) is Granted,
        !is_public(path) ==> ctx.access(method, path, other) is Unauthorized,
{
    let header = "Bearer "@ + token;
    assert(header.take("Bearer "@.len() as int) =~= "Bearer "@);
    assert(header.skip("Bearer "@.len() as int) =~= token);
}

/// A plain token is accepted if it is the configured one, letter for letter, and only then.
pub proof fn law_plain_tokens_must_be_equal(ctx: AdminContext, token: Seq<char>)
    requires
        ctx.api_token_sha256 is None,
        ctx.api_token is Some,
    ensures
        ctx.accepts(token) <==> token == ctx.api_token->0@,
        ctx.guarded(),
{
    vstd::utf8::encode_utf8_decode_utf8(token);
    vstd::utf8::encode_utf8_decode_utf8(ctx.api_token->0@);
}

/// Where a hash is configured, a token is accepted if its digest is that hash, and only then.
pub proof fn law_hashed_tokens_must_match(ctx: AdminContext, token: Seq<char>)
    requires
        ctx.api_token_sha256 is Some,
    ensures
        ctx.accepts(token) <==> sha256_of(encode_utf8(token)) == ctx.api_token_sha256->0@,
        ctx.guarded(),
{
}

/// Without a configured token nothing can be changed: every request that would is told so.
pub proof fn law_nothing_is_changed_without_a_token(
    ctx: AdminContext,
    method: Method,
    path: Seq<char>,
    authorization: Option<Seq<char>>,
)
    requires
        ctx.api_token is None,
        ctx.api_token_sha256 is None,
        method is Delete || method is Post || method is Put || method is Patch,
        path != "/"@ && path != "/api"@ && path != "/health"@ && path != "/api/health"@,
    ensures
        outcome_of(true, ctx, method, path, authorization) is NotConfigured,
{
}

/// What the endpoints are: a session is shown or terminated by its identifier, only a deletion
/// terminates one, metrics are served only where they are enabled, and no other method than these
/// two leads anywhere.
pub proof fn law_routes_are_as_listed(method: Method, id: Seq<char>, path: Seq<char>, enabled: bool)
    ensures
        route_of(Method::Get, "/api/sessions/"@ + id, enabled) == AdminRoute::Show(
            session_id_of(id),
        ),
        route_of(Method::Delete, "/api/sessions/"@ + id, enabled) == AdminRoute::Terminate(
            session_id_of(id),
        ),
        route_of(method, path, enabled) is Terminate ==> method is Delete,
        route_of(method, path, false) != AdminRoute::Metrics,
        !(method is Get) && !(method is Delete) ==> route_of(method, path, enabled) is NotFound,
{
    let p = "/api/sessions/"@ + id;
    assert(p.take("/api/sessions/"@.len() as int) =~= "/api/sessions/"@);
    assert(p.skip("/api/sessions/"@.len() as int) =~= id);
    reveal_strlit("/api/sessions");
    reveal_strlit("/api/sessions/");
    assert(p.len() >= 14);
    assert("/api/sessions"@.len() == 13);
}

/// A session is found under the identifier that is shown for it.
pub proof fn law_shown_identifiers_are_read_back(id: u64)
    ensures
        session_id_of(hexadecimal(id as nat)) == Some(id),
        route_of(Method::Delete, "/api/sessions/"@ + hexadecimal(id as nat), true)
            == AdminRoute::Terminate(Some(id)),
{
    law_numbers_are_read_back(id as nat, 16);
    lemma_hexadecimal_starts_with_a_digit(id as nat);
    law_routes_are_as_listed(Method::Delete, hexadecimal(id as nat), Seq::empty(), true);
}

proof fn lemma_hexadecimal_starts_with_a_digit(n: nat)
    ensures
        hexadecimal(n).len() >= 1,
        hexadecimal(n)[0] != '+',
    decreases n,
{
    if n >= 16 {
        lemma_hexadecimal_starts_with_a_digit(n / 16);
    }
}

/// The statistics show each counter of the server under its own name.
pub proof fn law_the_statistics_show_the_counters(m: ServerMetrics, uptime: u64)
    ensures
        ({
            let s = stats_of(m, uptime);
            &&& s.uptime_secs == uptime
            &&& s.sessions_active == m.sessions_active.value
            &&& s.sessions_total == m.sessions_total.value
            &&& s.bytes_sent == m.bytes_sent.value
            &&& s.bytes_received == m.bytes_received.value
            &&& s.packets_sent == m.packets_sent.value
            &&& s.packets_received == m.packets_received.value
            &&& s.packets_dropped == m.packets_dropped.value
            &&& s.handshakes_success == m.handshakes_success.value
            &&& s.handshakes_failed == m.handshakes_failed.value
        }),
{
}

} // verus!
