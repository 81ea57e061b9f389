//! AF_XDP data path workers.
//!
//! A worker takes packets from one queue of the network card. Data packets are decrypted and
//! written to the TUN device; keepalives, key changes and control messages go to the main thread.
//! The worker asks its surroundings for one thing at a time, and each reply says what comes next.

use crate::net::{IpAddr, SocketAddr};
use crate::relay::metrics::bumped;
use crate::relay::session::SessionId;
use crate::server::auto_tune::SystemCapabilities;
use crate::server::config::ServerConfig;
use crate::server::error::{ServerError, ServerResult};
use crate::text::{decimal, push_decimal};
use crate::wire::{MessageType, PacketHeader};
use vstd::prelude::*;

verus! {

/// Largest packet that is decrypted into a buffer.
pub const MAX_PACKET_SIZE: usize = 65535;

/// Most packets taken from the card at once.
pub const RX_BATCH_SIZE: usize = 64;

/// Most packets handed to the card at once.
pub const TX_BATCH_SIZE: usize = 64;

/// How long a worker waits for packets, in milliseconds.
pub const POLL_TIMEOUT_MS: u32 = 1;

/// Most control messages that wait for the main thread.
pub const CONTROL_QUEUE_LEN: usize = 8192;

/// Most responses that wait to be sent.
pub const RESPONSE_QUEUE_LEN: usize = 4096;

/// Buffers for each worker.
pub const BUFFERS_PER_WORKER: usize = 1024;

/// How long a worker may take to stop before it is left behind, in milliseconds.
pub const JOIN_TIMEOUT_MS: u64 = 2000;

/// Configuration for AF_XDP worker pool.
#[derive(Debug, Clone)]
pub struct AfXdpPoolConfig {
    /// Network interface to bind to.
    pub interface: String,
    /// Number of workers (one per NIC queue).
    pub num_workers: u32,
    /// Ring size for each socket.
    pub ring_size: u32,
    /// Enable zero-copy mode.
    pub zero_copy: bool,
    /// Enable busy polling (higher CPU, lower latency).
    pub busy_poll: bool,
}

/// How the XDP program is attached to the interface.
#[derive(Clone, Copy, Debug, PartialEq, Eq, Structural)]
pub enum XdpMode {
    /// In the driver.
    Native,
    /// In the network stack, which every driver allows.
    Skb,
}

impl AfXdpPoolConfig {
    /// Create configuration from server config, if the system has AF_XDP and an interface.
    pub fn from_server_config(config: &ServerConfig, caps: &SystemCapabilities) -> (r: Option<
        AfXdpPoolConfig,
    >)
        ensures
            match r {
                Some(c) => caps.has_afxdp && (caps.default_interface matches Some(i) && c.interface@
                    == i@) && c.num_workers == caps.nic_rx_queues as u32 && c.ring_size == 4096
                    && c.zero_copy && !c.busy_poll,
                None => !caps.has_afxdp || caps.default_interface is None,
            },
    {
        match config.get_afxdp_config(caps) {
            None => None,
            Some((interface, num_workers, ring_size, zero_copy)) => Some(
                AfXdpPoolConfig { interface, num_workers, ring_size, zero_copy, busy_poll: false },
            ),
        }
    }

    /// Refuses to make a pool where the system does not support it.
    pub fn check_supported(&self, supported: bool) -> (r: ServerResult<()>)
        ensures
            match r {
                Ok(_) => supported,
                Err(ServerError::Internal(m)) => !supported && m@
                    == "AF_XDP not supported on this system"@,
                Err(_) => false,
            },
    {
        if supported {
            Ok(())
        } else {
            Err(ServerError::Internal(String::from_str("AF_XDP not supported on this system")))
        }
    }

    /// The mode to attach the program in first.
    pub fn first_mode(&self) -> (m: XdpMode)
        ensures
            m == (if self.zero_copy {
                XdpMode::Native
            } else {
                XdpMode::Skb
            }),
    {
        if self.zero_copy {
            XdpMode::Native
        } else {
            XdpMode::Skb
        }
    }

    /// What follows a failure to attach the program: after the first one the network stack is
    /// tried, whichever mode failed; after the second the pool cannot be made.
    pub fn after_failed_attach(&self, failures: u32, error: &str) -> (r: Result<
        XdpMode,
        ServerError,
    >)
        requires
            failures >= 1,
        ensures
            match r {
                Ok(m) => failures == 1 && m == XdpMode::Skb,
                Err(ServerError::Internal(m)) => failures > 1 && m@
                    == "Failed to attach XDP program: "@ + error@,
                Err(_) => false,
            },
    {
        if failures == 1 {
            Ok(XdpMode::Skb)
        } else {
            let mut m = String::from_str("Failed to attach XDP program: ");
            m.append(error);
            Err(ServerError::Internal(m))
        }
    }

    /// Number of buffers for decrypted packets.
    pub fn buffer_pool_size(&self) -> (n: u64)
        ensures
            n == self.num_workers * BUFFERS_PER_WORKER,
    {
        self.num_workers as u64 * 1024
    }

    /// The queues that get a worker, in order.
    pub fn queue_ids(&self) -> (v: Vec<u32>)
        ensures
            v@ == Seq::new(self.num_workers as nat, |i: int| i as u32),
    {
        let mut v: Vec<u32> = Vec::new();
        let mut i: u32 = 0;
        while i < self.num_workers
            invariant
                i <= self.num_workers,
                v@ == Seq::new(i as nat, |k: int| k as u32),
            decreases self.num_workers - i,
        {
            v.push(i);
            proof {
                assert(v@ =~= Seq::new((i + 1) as nat, |k: int| k as u32));
            }
            i += 1;
        }
        v
    }
}

/// The name of the thread that serves a queue.
pub fn worker_name(queue_id: u32) -> (s: String)
    ensures
        s@ == "afxdp-worker-"@ + decimal(queue_id as nat),
{
    let mut s = String::from_str("afxdp-worker-");
    push_decimal(&mut s, queue_id as u64);
    s
}

/// The core that a worker is pinned to: the one that its queue's interrupts go to.
pub fn pinned_core(worker_id: u32, cores: usize) -> (r: Option<usize>)
    ensures
        r == (if cores == 0 {
            None
        } else {
            Some((worker_id as int % cores as int) as usize)
        }),
{
    if cores == 0 {
        None
    } else {
        Some(((worker_id as u64) % (cores as u64)) as usize)
    }
}

/// Control message from AF_XDP workers to the main server.
#[derive(Debug)]
pub enum AfXdpControl {
    /// Handshake init received.
    HandshakeInit { data: Vec<u8>, addr: SocketAddr },
    /// Keepalive received.
    Keepalive { session_id: SessionId, data: Vec<u8>, addr: SocketAddr },
    /// Control message received.
    Control { session_id: SessionId, data: Vec<u8>, addr: SocketAddr },
    /// Rekey request received.
    Rekey { session_id: SessionId, data: Vec<u8>, addr: SocketAddr },
}

/// Response to send back to a client via UDP.
#[derive(Debug)]
pub struct AfXdpResponse {
    /// Destination address.
    pub addr: SocketAddr,
    /// Response data to send.
    pub data: Vec<u8>,
}

/// Statistics for AF_XDP worker pool.
#[derive(Debug, Clone, Copy)]
pub struct AfXdpPoolStats {
    /// Total packets received across all workers.
    pub rx_packets: u64,
    /// Total packets transmitted across all workers.
    pub tx_packets: u64,
    /// Total bytes received (decrypted).
    pub rx_bytes: u64,
    /// Total bytes transmitted (encrypted).
    pub tx_bytes: u64,
    /// Packets dropped due to unknown session.
    pub unknown_session: u64,
    /// Packets dropped due to decryption failure.
    pub decrypt_errors: u64,
    /// Packets dropped due to replay detection.
    pub replay_drops: u64,
    /// Packets dropped due to per-session rate limiting.
    pub rate_limited_drops: u64,
    /// Packets dropped due to invalid AF_XDP descriptor bounds.
    pub invalid_desc_drops: u64,
    /// Control messages forwarded to main thread.
    pub control_messages: u64,
}

/// Which counter a packet moves, and by how much.
pub enum Tally {
    Nothing,
    InvalidDescriptor,
    Received,
    ReceivedControl,
    UnknownSession,
    DecryptError,
    Replay,
    RateLimited,
    Bytes(usize),
    Control,
}

impl AfXdpPoolStats {
    /// The statistics after a tally.
    pub open spec fn tallied(self, t: Tally) -> AfXdpPoolStats {
        match t {
            Tally::Nothing => self,
            Tally::InvalidDescriptor => AfXdpPoolStats {
                invalid_desc_drops: bumped(self.invalid_desc_drops, 1),
                ..self
            },
            Tally::Received => AfXdpPoolStats { rx_packets: bumped(self.rx_packets, 1), ..self },
            Tally::ReceivedControl => AfXdpPoolStats {
                rx_packets: bumped(self.rx_packets, 1),
                control_messages: bumped(self.control_messages, 1),
                ..self
            },
            Tally::UnknownSession => AfXdpPoolStats {
                unknown_session: bumped(self.unknown_session, 1),
                ..self
            },
            Tally::DecryptError => AfXdpPoolStats {
                decrypt_errors: bumped(self.decrypt_errors, 1),
                ..self
            },
            Tally::Replay => AfXdpPoolStats { replay_drops: bumped(self.replay_drops, 1), ..self },
            Tally::RateLimited => AfXdpPoolStats {
                rate_limited_drops: bumped(self.rate_limited_drops, 1),
                ..self
            },
            Tally::Bytes(n) => AfXdpPoolStats { rx_bytes: bumped(self.rx_bytes, n as nat), ..self },
            Tally::Control => AfXdpPoolStats {
                control_messages: bumped(self.control_messages, 1),
                ..self
            },
        }
    }

    /// What is said when a worker stops.
    pub open spec fn stopped_text(self, worker_id: u32) -> Seq<char> {
        "AF_XDP worker "@ + decimal(worker_id as nat) + " stopped (rx="@ + decimal(
            self.rx_packets as nat,
        ) + ", tx="@ + decimal(self.tx_packets as nat) + ", unknown="@ + decimal(
            self.unknown_session as nat,
        ) + ", decrypt_err="@ + decimal(self.decrypt_errors as nat) + ", replay="@ + decimal(
            self.replay_drops as nat,
        ) + ", rate_limited="@ + decimal(self.rate_limited_drops as nat) + ", invalid_desc="@
            + decimal(self.invalid_desc_drops as nat) + ")"@
    }

    /// What is said when a worker stops.
    pub fn stopped_line(&self, worker_id: u32) -> (s: String)
        ensures
            s@ == self.stopped_text(worker_id),
    {
        let mut s = String::from_str("AF_XDP worker ");
        push_decimal(&mut s, worker_id as u64);
        s.append(" stopped (rx=");
        push_decimal(&mut s, self.rx_packets);
        s.append(", tx=");
        push_decimal(&mut s, self.tx_packets);
        s.append(", unknown=");
        push_decimal(&mut s, self.unknown_session);
        s.append(", decrypt_err=");
        push_decimal(&mut s, self.decrypt_errors);
        s.append(", replay=");
        push_decimal(&mut s, self.replay_drops);
        s.append(", rate_limited=");
        push_decimal(&mut s, self.rate_limited_drops);
        s.append(", invalid_desc=");
        push_decimal(&mut s, self.invalid_desc_drops);
        s.append(")");
        s
    }

    /// Statistics before the first packet.
    pub fn new() -> (s: AfXdpPoolStats)
        ensures
            s == (AfXdpPoolStats {
                rx_packets: 0,
                tx_packets: 0,
                rx_bytes: 0,
                tx_bytes: 0,
                unknown_session: 0,
                decrypt_errors: 0,
                replay_drops: 0,
                rate_limited_drops: 0,
                invalid_desc_drops: 0,
                control_messages: 0,
            }),
    {
        AfXdpPoolStats {
            rx_packets: 0,
            tx_packets: 0,
            rx_bytes: 0,
            tx_bytes: 0,
            unknown_session: 0,
            decrypt_errors: 0,
            replay_drops: 0,
            rate_limited_drops: 0,
            invalid_desc_drops: 0,
            control_messages: 0,
        }
    }

    fn tally(&mut self, t: Tally)
        ensures
            *final(self) == old(self).tallied(t),
    {
        match t {
            Tally::Nothing => {},
            Tally::InvalidDescriptor => {
                self.invalid_desc_drops = self.invalid_desc_drops.wrapping_add(1);
            },
            Tally::Received => {
                self.rx_packets = self.rx_packets.wrapping_add(1);
            },
            Tally::ReceivedControl => {
                self.rx_packets = self.rx_packets.wrapping_add(1);
                self.control_messages = self.control_messages.wrapping_add(1);
            },
            Tally::UnknownSession => {
                self.unknown_session = self.unknown_session.wrapping_add(1);
            },
            Tally::DecryptError => {
                self.decrypt_errors = self.decrypt_errors.wrapping_add(1);
            },
            Tally::Replay => {
                self.replay_drops = self.replay_drops.wrapping_add(1);
            },
            Tally::RateLimited => {
                self.rate_limited_drops = self.rate_limited_drops.wrapping_add(1);
            },
            Tally::Bytes(n) => {
                self.rx_bytes = self.rx_bytes.wrapping_add(n as u64);
            },
            Tally::Control => {
                self.control_messages = self.control_messages.wrapping_add(1);
            },
        }
    }
}

impl Default for AfXdpPoolStats {
    fn default() -> (s: AfXdpPoolStats)
        ensures
            s.rx_packets == 0 && s.tx_packets == 0 && s.rx_bytes == 0 && s.tx_bytes == 0,
            s.unknown_session == 0 && s.decrypt_errors == 0 && s.replay_drops == 0,
            s.rate_limited_drops == 0 && s.invalid_desc_drops == 0 && s.control_messages == 0,
    {
        AfXdpPoolStats::new()
    }
}

/// Messages that the main thread handles.
#[derive(Clone, Copy, Debug, PartialEq, Eq, Structural)]
pub enum ControlKind {
    Keepalive,
    Rekey,
    Control,
}

/// What is to be done for a packet.
#[derive(Clone, Copy, Debug, PartialEq, Eq, Structural)]
pub enum PacketStep {
    /// Nothing more.
    Done,
    /// Look the session up.
    FindSession(SessionId),
    /// Take a buffer for the decrypted packet.
    TakeBuffer(SessionId),
    /// Decrypt the packet, which also shows that its sender holds the key.
    Decrypt(SessionId),
    /// See whether the packet's counter is fresh, and remember it; so many bytes were decrypted.
    CheckReplay(SessionId, usize),
    /// Take so many bytes from the session's allowance.
    CheckRate(SessionId, usize),
    /// Write so many decrypted bytes to the TUN device.
    WriteTun(usize),
    /// Hand the packet to the main thread.
    Forward(SessionId, ControlKind),
}

/// How a step went.
#[derive(Clone, Copy, Debug, PartialEq, Eq, Structural)]
pub enum StepReply {
    /// It could be done, or the answer is yes.
    Yes,
    /// It could not be done, or the answer is no.
    No,
    /// The packet was decrypted to so many bytes.
    Decrypted(usize),
}

/// What a packet of `len` bytes starts: packets shorter than the least length and packets without
/// a readable header are passed over.
pub open spec fn first_step(len: nat, least: nat, header: Option<PacketHeader>) -> (
    PacketStep,
    Tally,
) {
    if len < least {
        (PacketStep::Done, Tally::Received)
    } else {
        match header {
            None => (PacketStep::Done, Tally::Received),
            Some(h) => match h.msg_type {
                MessageType::Data => (PacketStep::FindSession(h.session_id), Tally::Received),
                MessageType::HandshakeInit | MessageType::EncryptedHandshakeInit => (
                    PacketStep::Done,
                    Tally::ReceivedControl,
                ),
                MessageType::Keepalive => (
                    PacketStep::Forward(h.session_id, ControlKind::Keepalive),
                    Tally::Received,
                ),
                MessageType::Rekey => (
                    PacketStep::Forward(h.session_id, ControlKind::Rekey),
                    Tally::Received,
                ),
                MessageType::Control => (
                    PacketStep::Forward(h.session_id, ControlKind::Control),
                    Tally::Received,
                ),
                _ => (PacketStep::Done, Tally::Received),
            },
        }
    }
}

/// What follows a step, by how it went.
pub open spec fn next_step(step: PacketStep, reply: StepReply) -> (PacketStep, Tally) {
    match (step, reply) {
        (PacketStep::FindSession(id), StepReply::Yes) => (PacketStep::TakeBuffer(id), Tally::Nothing),
        (PacketStep::FindSession(_), _) => (PacketStep::Done, Tally::UnknownSession),
        (PacketStep::TakeBuffer(id), StepReply::Yes) => (PacketStep::Decrypt(id), Tally::Nothing),
        (PacketStep::Decrypt(id), StepReply::Decrypted(n)) => (
            PacketStep::CheckReplay(id, n),
            Tally::Nothing,
        ),
        (PacketStep::Decrypt(_), _) => (PacketStep::Done, Tally::DecryptError),
        (PacketStep::CheckReplay(id, n), StepReply::Yes) => (
            PacketStep::CheckRate(id, n),
            Tally::Nothing,
        ),
        (PacketStep::CheckReplay(_, _), _) => (PacketStep::Done, Tally::Replay),
        (PacketStep::CheckRate(_, n), StepReply::Yes) => (PacketStep::WriteTun(n), Tally::Bytes(n)),
        (PacketStep::CheckRate(_, _), _) => (PacketStep::Done, Tally::RateLimited),
        (PacketStep::Forward(_, _), StepReply::Yes) => (PacketStep::Done, Tally::Control),
        _ => (PacketStep::Done, Tally::Nothing),
    }
}

/// Counts a descriptor that points outside the packet memory.
pub fn invalid_descriptor(stats: &mut AfXdpPoolStats)
    ensures
        *final(stats) == old(stats).tallied(Tally::InvalidDescriptor),
{
    stats.tally(Tally::InvalidDescriptor);
}

/// Takes in a packet of `len` bytes with its header, `None` when it has no readable one. `least`
/// is the length of a header and an authentication tag.
pub fn receive_packet(
    stats: &mut AfXdpPoolStats,
    len: usize,
    least: usize,
    header: Option<PacketHeader>,
) -> (s: PacketStep)
    ensures
        s == first_step(len as nat, least as nat, header).0,
        *final(stats) == old(stats).tallied(first_step(len as nat, least as nat, header).1),
{
    if len < least {
        stats.tally(Tally::Received);
        return PacketStep::Done;
    }
    match header {
        None => {
            stats.tally(Tally::Received);
            PacketStep::Done
        },
        Some(h) => match h.msg_type {
            MessageType::Data => {
                stats.tally(Tally::Received);
                PacketStep::FindSession(h.session_id)
            },
            MessageType::HandshakeInit | MessageType::EncryptedHandshakeInit => {
                stats.tally(Tally::ReceivedControl);
                PacketStep::Done
            },
            MessageType::Keepalive => {
                stats.tally(Tally::Received);
                PacketStep::Forward(h.session_id, ControlKind::Keepalive)
            },
            MessageType::Rekey => {
                stats.tally(Tally::Received);
                PacketStep::Forward(h.session_id, ControlKind::Rekey)
            },
            MessageType::Control => {
                stats.tally(Tally::Received);
                PacketStep::Forward(h.session_id, ControlKind::Control)
            },
            _ => {
                stats.tally(Tally::Received);
                PacketStep::Done
            },
        },
    }
}

/// Takes in how a step went.
pub fn continue_packet(stats: &mut AfXdpPoolStats, step: PacketStep, reply: StepReply) -> (s:
    PacketStep)
    ensures
        s == next_step(step, reply).0,
        *final(stats) == old(stats).tallied(next_step(step, reply).1),
{
    match (step, reply) {
        (PacketStep::FindSession(id), StepReply::Yes) => PacketStep::TakeBuffer(id),
        (PacketStep::FindSession(_), _) => {
            stats.tally(Tally::UnknownSession);
            PacketStep::Done
        },
        (PacketStep::TakeBuffer(id), StepReply::Yes) => PacketStep::Decrypt(id),
        (PacketStep::Decrypt(id), StepReply::Decrypted(n)) => PacketStep::CheckReplay(id, n),
        (PacketStep::Decrypt(_), _) => {
            stats.tally(Tally::DecryptError);
            PacketStep::Done
        },
        (PacketStep::CheckReplay(id, n), StepReply::Yes) => PacketStep::CheckRate(id, n),
        (PacketStep::CheckReplay(_, _), _) => {
            stats.tally(Tally::Replay);
            PacketStep::Done
        },
        (PacketStep::CheckRate(_, n), StepReply::Yes) => {
            stats.tally(Tally::Bytes(n));
            PacketStep::WriteTun(n)
        },
        (PacketStep::CheckRate(_, _), _) => {
            stats.tally(Tally::RateLimited);
            PacketStep::Done
        },
        (PacketStep::Forward(_, _), StepReply::Yes) => {
            stats.tally(Tally::Control);
            PacketStep::Done
        },
        _ => PacketStep::Done,
    }
}

/// The message for the main thread. The sender's address is not known here, so it is left
/// unspecified.
pub fn control_message(session_id: SessionId, kind: ControlKind, data: Vec<u8>) -> (m: AfXdpControl)
    ensures
        ({
            let nowhere = SocketAddr { ip: IpAddr::V4(0), port: 0, flowinfo: 0, scope_id: 0 };
            m == match kind {
                ControlKind::Keepalive => AfXdpControl::Keepalive { session_id, data, addr: nowhere },
                ControlKind::Rekey => AfXdpControl::Rekey { session_id, data, addr: nowhere },
                ControlKind::Control => AfXdpControl::Control { session_id, data, addr: nowhere },
            }
        }),
{
    let addr = SocketAddr::new(IpAddr::v4(0, 0, 0, 0), 0);
    match kind {
        ControlKind::Keepalive => AfXdpControl::Keepalive { session_id, data, addr },
        ControlKind::Rekey => AfXdpControl::Rekey { session_id, data, addr },
        ControlKind::Control => AfXdpControl::Control { session_id, data, addr },
    }
}

/// What an idle worker does before it looks again.
#[derive(Clone, Copy, Debug, PartialEq, Eq, Structural)]
pub enum Pause {
    /// Nothing.
    NoRest,
    /// Spin once.
    Spin,
    /// Sleep for so many microseconds.
    SleepMicros(u64),
}

/// How a wait for packets went.
#[derive(Clone, Copy, Debug, PartialEq, Eq, Structural)]
pub enum PollResult {
    /// There is something to read.
    Readable,
    /// There is nothing to read.
    Empty,
    /// The wait failed.
    Failed,
}

/// How long a worker has found nothing, which decides how long it rests.
#[derive(Clone, Copy, Debug)]
pub struct IdleState {
    /// Rounds without a packet since the last one.
    pub consecutive_empty: u32,
    /// Whether the worker never rests.
    pub busy_poll: bool,
}

/// How long to sleep after so many empty rounds.
pub open spec fn rest_after(empty: u32) -> Pause {
    if empty > 1000 {
        Pause::SleepMicros(100)
    } else if empty > 100 {
        Pause::SleepMicros(10)
    } else {
        Pause::NoRest
    }
}

/// One more empty round; the count starts over once it is used up.
pub open spec fn one_more(n: u32) -> u32 {
    if n == u32::MAX {
        0
    } else {
        (n + 1) as u32
    }
}

impl IdleState {
    /// The state after a wait for packets, and how to rest; `None` means that packets are to be
    /// read.
    pub open spec fn polled(self, result: PollResult) -> (IdleState, Option<Pause>) {
        match result {
            PollResult::Readable => (self, None),
            PollResult::Empty => {
                let n = one_more(self.consecutive_empty);
                (IdleState { consecutive_empty: n, ..self }, Some(rest_after(n)))
            },
            PollResult::Failed => (self, Some(Pause::SleepMicros(1000))),
        }
    }

    /// The state after so many packets were read, `None` when reading failed, and how to rest.
    pub open spec fn after_batch(self, processed: Option<usize>) -> (IdleState, Pause) {
        let n = match processed {
            Some(k) => if k > 0 {
                0
            } else {
                one_more(self.consecutive_empty)
            },
            None => self.consecutive_empty,
        };
        (
            IdleState { consecutive_empty: n, ..self },
            if n == 0 || self.busy_poll {
                Pause::NoRest
            } else if n <= 100 {
                Pause::Spin
            } else {
                rest_after(n)
            },
        )
    }
}

fn rest(empty: u32) -> (p: Pause)
    ensures
        p == rest_after(empty),
{
    if empty > 1000 {
        Pause::SleepMicros(100)
    } else if empty > 100 {
        Pause::SleepMicros(10)
    } else {
        Pause::NoRest
    }
}

impl IdleState {
    /// A worker that has not looked yet.
    pub fn new(busy_poll: bool) -> (s: IdleState)
        ensures
            s == (IdleState { consecutive_empty: 0, busy_poll }),
    {
        IdleState { consecutive_empty: 0, busy_poll }
    }

    /// Takes in how a wait for packets went. `None` means that packets are to be read, otherwise
    /// the worker rests and waits again.
    pub fn on_poll(&mut self, result: PollResult) -> (p: Option<Pause>)
        ensures
            (*final(self), p) == old(self).polled(result),
    {
        match result {
            PollResult::Readable => None,
            PollResult::Empty => {
                self.consecutive_empty = self.consecutive_empty.wrapping_add(1);
                Some(rest(self.consecutive_empty))
            },
            PollResult::Failed => Some(Pause::SleepMicros(1000)),
        }
    }

    /// Takes in how many packets were read, `None` when reading failed, and says how to rest.
    pub fn on_batch(&mut self, processed: Option<usize>) -> (p: Pause)
        ensures
            (*final(self), p) == old(self).after_batch(processed),
    {
        match processed {
            Some(n) => {
                if n > 0 {
                    self.consecutive_empty = 0;
                } else {
                    self.consecutive_empty = self.consecutive_empty.wrapping_add(1);
                }
            },
            None => {},
        }
        if self.consecutive_empty == 0 || self.busy_poll {
            Pause::NoRest
        } else if self.consecutive_empty <= 100 {
            Pause::Spin
        } else {
            rest(self.consecutive_empty)
        }
    }
}

/// What to do about a worker that was told to stop.
#[derive(Clone, Copy, Debug, PartialEq, Eq, Structural)]
pub enum JoinStep {
    /// It has ended: collect it.
    Join,
    /// It has had its time: leave it behind.
    GiveUp,
    /// Wait a little.
    Wait,
}

/// What to do about a worker that was told to stop `elapsed_ms` ago.
pub open spec fn joining(finished: bool, elapsed_ms: u64) -> JoinStep {
    if finished {
        JoinStep::Join
    } else if elapsed_ms >= JOIN_TIMEOUT_MS {
        JoinStep::GiveUp
    } else {
        JoinStep::Wait
    }
}

/// Decides about a worker that was told to stop `elapsed_ms` ago.
pub fn join_step(finished: bool, elapsed_ms: u64) -> (s: JoinStep)
    ensures
        s == joining(finished, elapsed_ms),
{
    if finished {
        JoinStep::Join
    } else if elapsed_ms >= JOIN_TIMEOUT_MS {
        JoinStep::GiveUp
    } else {
        JoinStep::Wait
    }
}

/// The steps that change a session: they take in its replay window or its allowance.
pub open spec fn changes_session(s: PacketStep) -> bool {
    s is CheckReplay || s is CheckRate
}

/// No packet changes a session before it was decrypted: from the outset it cannot, and a step
/// that changes a session follows only a successful decryption for that session or another such
/// step for it.
pub proof fn law_sessions_change_only_after_decryption(
    len: nat,
    least: nat,
    header: Option<PacketHeader>,
    step: PacketStep,
    reply: StepReply,
)
    ensures
        !changes_session(first_step(len, least, header).0),
        next_step(step, reply).0 matches PacketStep::CheckReplay(id, n) ==> step
            == PacketStep::Decrypt(id) && reply == StepReply::Decrypted(n),
        next_step(step, reply).0 matches PacketStep::CheckRate(id, n) ==> step
            == PacketStep::CheckReplay(id, n) && reply == StepReply::Yes,
{
}

/// Only what was decrypted, was fresh and was within the allowance is written to the TUN device.
pub proof fn law_only_accepted_packets_reach_the_device(
    len: nat,
    least: nat,
    header: Option<PacketHeader>,
    step: PacketStep,
    reply: StepReply,
)
    ensures
        !(first_step(len, least, header).0 is WriteTun),
        next_step(step, reply).0 matches PacketStep::WriteTun(n) ==> step is CheckRate && step->CheckRate_1
            == n && reply == StepReply::Yes,
{
}

/// How many more steps a packet can take.
pub open spec fn steps_left(s: PacketStep) -> nat {
    match s {
        PacketStep::FindSession(_) => 6,
        PacketStep::TakeBuffer(_) => 5,
        PacketStep::Decrypt(_) => 4,
        PacketStep::CheckReplay(_, _) => 3,
        PacketStep::CheckRate(_, _) => 2,
        PacketStep::WriteTun(_) => 1,
        PacketStep::Forward(_, _) => 1,
        PacketStep::Done => 0,
    }
}

/// Every packet is done after at most six steps.
pub proof fn law_packets_end(step: PacketStep, reply: StepReply)
    ensures
        steps_left(step) <= 6,
        step != PacketStep::Done ==> steps_left(next_step(step, reply).0) < steps_left(step),
        next_step(PacketStep::Done, reply) == (PacketStep::Done, Tally::Nothing),
{
}

/// A worker that finds packets does not rest, and one that finds none rests no longer than a tenth
/// of a millisecond at a time.
pub proof fn law_rests_are_short(empty: u32)
    ensures
        rest_after(0) == Pause::NoRest,
        match rest_after(empty) {
            Pause::SleepMicros(us) => us <= 100,
            _ => true,
        },
{
}

/// A data packet whose session is known, that is decrypted, fresh and within its allowance is
/// written to the device with all the bytes that were decrypted; on the way it counts as one
/// packet and so many bytes, and as nothing else.
pub proof fn law_good_packets_get_through(
    s: AfXdpPoolStats,
    len: nat,
    least: nat,
    id: SessionId,
    n: usize,
)
    requires
        len >= least,
        s.rx_packets < u64::MAX,
        s.rx_bytes + n <= u64::MAX,
    ensures
        ({
            let header = PacketHeader { msg_type: MessageType::Data, session_id: id };
            let a = first_step(len, least, Some(header));
            let b = next_step(a.0, StepReply::Yes);
            let c = next_step(b.0, StepReply::Yes);
            let d = next_step(c.0, StepReply::Decrypted(n));
            let e = next_step(d.0, StepReply::Yes);
            let f = next_step(e.0, StepReply::Yes);
            &&& a.0 == PacketStep::FindSession(id)
            &&& b.0 == PacketStep::TakeBuffer(id)
            &&& c.0 == PacketStep::Decrypt(id)
            &&& d.0 == PacketStep::CheckReplay(id, n)
            &&& e.0 == PacketStep::CheckRate(id, n)
            &&& f.0 == PacketStep::WriteTun(n)
            &&& next_step(f.0, StepReply::Yes).0 == PacketStep::Done
            &&& s.tallied(a.1).tallied(b.1).tallied(c.1).tallied(d.1).tallied(e.1).tallied(f.1) == (
            AfXdpPoolStats {
                rx_packets: (s.rx_packets + 1) as u64,
                rx_bytes: (s.rx_bytes + n) as u64,
                ..s
            })
        }),
{
}

/// Every packet counts as received once, whatever it is; those that open a handshake count as
/// control messages as well, and nothing is done for what is too short or cannot be read.
pub proof fn law_every_packet_is_counted(
    s: AfXdpPoolStats,
    len: nat,
    least: nat,
    header: Option<PacketHeader>,
)
    requires
        s.rx_packets < u64::MAX,
        s.control_messages < u64::MAX,
    ensures
        ({
            let f = first_step(len, least, header);
            let opens = len >= least && (header matches Some(h) && (h.msg_type is HandshakeInit
                || h.msg_type is EncryptedHandshakeInit));
            &&& s.tallied(f.1) == (AfXdpPoolStats {
                rx_packets: (s.rx_packets + 1) as u64,
                control_messages: (s.control_messages + (if opens {
                    1int
                } else {
                    0int
                })) as u64,
                ..s
            })
            &&& len < least || header is None ==> f.0 is Done
        }),
{
}

/// A packet that is given up counts once, under the reason for it.
pub proof fn law_every_drop_has_its_reason(
    s: AfXdpPoolStats,
    id: SessionId,
    n: usize,
    reply: StepReply,
)
    requires
        s.unknown_session < u64::MAX,
        s.decrypt_errors < u64::MAX,
        s.replay_drops < u64::MAX,
        s.rate_limited_drops < u64::MAX,
        s.invalid_desc_drops < u64::MAX,
        reply is No,
    ensures
        s.tallied(next_step(PacketStep::FindSession(id), reply).1) == (AfXdpPoolStats {
            unknown_session: (s.unknown_session + 1) as u64,
            ..s
        }),
        s.tallied(next_step(PacketStep::Decrypt(id), reply).1) == (AfXdpPoolStats {
            decrypt_errors: (s.decrypt_errors + 1) as u64,
            ..s
        }),
        s.tallied(next_step(PacketStep::CheckReplay(id, n), reply).1) == (AfXdpPoolStats {
            replay_drops: (s.replay_drops + 1) as u64,
            ..s
        }),
        s.tallied(next_step(PacketStep::CheckRate(id, n), reply).1) == (AfXdpPoolStats {
            rate_limited_drops: (s.rate_limited_drops + 1) as u64,
            ..s
        }),
        s.tallied(Tally::InvalidDescriptor) == (AfXdpPoolStats {
            invalid_desc_drops: (s.invalid_desc_drops + 1) as u64,
            ..s
        }),
        next_step(PacketStep::FindSession(id), reply).0 is Done,
        next_step(PacketStep::TakeBuffer(id), reply).0 is Done,
        next_step(PacketStep::Decrypt(id), reply).0 is Done,
        next_step(PacketStep::CheckReplay(id, n), reply).0 is Done,
        next_step(PacketStep::CheckRate(id, n), reply).0 is Done,
{
}

/// Keepalives, key changes and control messages go to the main thread under their session and
/// kind, and count as control messages if they get there.
pub proof fn law_control_messages_go_to_the_main_thread(
    s: AfXdpPoolStats,
    len: nat,
    least: nat,
    h: PacketHeader,
    kind: ControlKind,
)
    requires
        len >= least,
        s.control_messages < u64::MAX,
    ensures
        first_step(len, least, Some(h)).0 is Forward <==> h.msg_type is Keepalive || h.msg_type
            is Rekey || h.msg_type is Control,
        h.msg_type is Keepalive ==> first_step(len, least, Some(h)).0 == PacketStep::Forward(
            h.session_id,
            ControlKind::Keepalive,
        ),
        h.msg_type is Rekey ==> first_step(len, least, Some(h)).0 == PacketStep::Forward(
            h.session_id,
            ControlKind::Rekey,
        ),
        h.msg_type is Control ==> first_step(len, least, Some(h)).0 == PacketStep::Forward(
            h.session_id,
            ControlKind::Control,
        ),
        s.tallied(next_step(PacketStep::Forward(h.session_id, kind), StepReply::Yes).1) == (
        AfXdpPoolStats { control_messages: (s.control_messages + 1) as u64, ..s }),
        s.tallied(next_step(PacketStep::Forward(h.session_id, kind), StepReply::No).1) == s,
{
}

/// The longer a worker finds nothing the longer it rests: not at all in the first hundred rounds,
/// then ten microseconds, and after a thousand rounds a tenth of a millisecond.
pub proof fn law_rests_grow(a: u32, b: u32)
    requires
        a <= b,
    ensures
        a <= 100 ==> rest_after(a) == Pause::NoRest,
        100 < a <= 1000 ==> rest_after(a) == Pause::SleepMicros(10),
        a > 1000 ==> rest_after(a) == Pause::SleepMicros(100),
        rest_after(b) == Pause::NoRest ==> rest_after(a) == Pause::NoRest,
        a < u32::MAX ==> one_more(a) == a + 1,
{
}

/// A worker that read packets starts counting empty rounds anew and does not rest; an empty round
/// counts; a failure does not, and is followed by a rest of a millisecond where the wait failed.
/// A worker that polls without rest never rests after reading.
pub proof fn law_workers_rest_when_idle(s: IdleState, n: usize)
    requires
        s.consecutive_empty < u32::MAX,
    ensures
        n > 0 ==> s.after_batch(Some(n)).0.consecutive_empty == 0 && s.after_batch(Some(n)).1
            is NoRest,
        s.after_batch(Some(0)).0.consecutive_empty == s.consecutive_empty + 1,
        s.after_batch(None).0.consecutive_empty == s.consecutive_empty,
        s.busy_poll ==> s.after_batch(Some(n)).1 is NoRest && s.after_batch(None).1 is NoRest,
        !s.busy_poll && s.consecutive_empty < 100 ==> s.after_batch(Some(0)).1 is Spin,
        !s.busy_poll && 100 <= s.consecutive_empty < 1000 ==> s.after_batch(Some(0)).1
            == Pause::SleepMicros(10),
        !s.busy_poll && s.consecutive_empty >= 1000 ==> s.after_batch(Some(0)).1
            == Pause::SleepMicros(100),
        s.polled(PollResult::Readable) == (s, None::<Pause>),
        s.polled(PollResult::Empty).0.consecutive_empty == s.consecutive_empty + 1,
        s.polled(PollResult::Empty).1 is Some,
        s.polled(PollResult::Failed) == (s, Some(Pause::SleepMicros(1000))),
        s.after_batch(Some(n)).0.busy_poll == s.busy_poll,
        s.polled(PollResult::Empty).0.busy_poll == s.busy_poll,
{
}

/// A worker that has ended is collected; one that has not is waited for, but for no longer than two
/// seconds.
pub proof fn law_workers_have_two_seconds_to_stop(elapsed_ms: u64)
    ensures
        joining(true, elapsed_ms) is Join,
        joining(false, elapsed_ms) is Wait <==> elapsed_ms < 2000,
        joining(false, elapsed_ms) is GiveUp <==> elapsed_ms >= 2000,
{
}

} // verus!
