//! Forwarding of one handshake through a socket of its own.
//!
//! The upstream answers a handshake with one response, with a response cut into fragments, or
//! with a cookie request. Every datagram of the answer goes to the client at once; the session
//! that the upstream allocated is bound to the client's address when the response is complete.
//! The caller does the input and output that an action names and reports how it went.

use crate::net::SocketAddr;
use crate::relay::metrics::RelayMetrics;
use crate::relay::rate_limiter::monus;
use crate::relay::session::{RelaySession, SessionId};
use crate::relay::session_manager::{SessionLimits, SessionManager, binding};
use crate::wire::{MessageType, PacketHeader};
use vstd::prelude::*;

verus! {

/// How long, in nanoseconds, the relay waits for the upstream's answer.
pub const HANDSHAKE_RESPONSE_TIMEOUT_NS: u128 = 5_000_000_000;

/// Numbers of the fragment reassembler.
#[derive(Clone, Copy, Debug, PartialEq, Eq, Structural)]
pub struct ReassemblyStats {
    pub fragments_dropped: u64,
    pub entries_rejected: u64,
    pub fragments_duplicate: u64,
}

/// What the reassembler has after a fragment.
#[derive(Clone, Copy, Debug, PartialEq, Eq, Structural)]
pub enum Completion {
    /// Fragments are still missing.
    Missing,
    /// The payload is complete but too short for a session identifier.
    TooShort,
    /// The payload is complete and names this session.
    Session(SessionId),
}

/// Where the forwarding of a handshake stands.
#[derive(Clone, Copy, Debug, PartialEq, Eq, Structural)]
pub enum ForwardPhase {
    /// The dedicated socket is being bound.
    Binding,
    /// It is being connected to the upstream.
    Connecting,
    /// The client's packet is being sent.
    Sending,
    /// The next datagram of the answer is awaited.
    Waiting,
    /// A fragment is with the reassembler.
    Reassembling { len: usize },
    /// The whole response is on its way to the client; its session is bound.
    DeliveringResponse { session_id: SessionId, len: usize },
    /// A fragment is on its way to the client.
    DeliveringFragment { completion: Completion, len: usize },
    /// A cookie request is on its way to the client.
    DeliveringCookie { len: usize },
    /// Nothing more happens.
    Done,
}

/// What happened.
#[derive(Clone, Copy, Debug, PartialEq, Eq, Structural)]
pub enum ForwardEvent {
    /// The socket was bound, or could not be.
    Bound(bool),
    /// The socket was connected, or could not be.
    Connected(bool),
    /// The client's packet was sent, or could not be.
    Sent(bool),
    /// No datagram came in time.
    TimedOut,
    /// Receiving failed.
    ReceiveFailed,
    /// A datagram of `len` bytes came. `header` is `None` when it has no valid header; `inner`
    /// is what a fragment is part of, `None` when it is no valid fragment.
    Received { len: usize, header: Option<PacketHeader>, inner: Option<MessageType> },
    /// The reassembler took the fragment in or refused it.
    Reassembled { before: ReassemblyStats, after: ReassemblyStats, completion: Completion },
    /// The datagram reached the client's socket, or did not.
    Delivered(bool),
}

/// What to do next.
#[derive(Clone, Copy, Debug, PartialEq, Eq, Structural)]
pub enum ForwardAction {
    /// Connect the socket to the upstream.
    Connect,
    /// Send the client's packet to the upstream.
    SendUpstream,
    /// Wait at most so long for a datagram.
    Receive { timeout_ns: u128 },
    /// Hand the fragment to the reassembler.
    Reassemble,
    /// Send the datagram to the client.
    SendToClient,
    /// Release the socket; it is over.
    Finish,
}

/// The forwarding of one handshake.
#[derive(Clone, Copy, Debug, PartialEq, Eq, Structural)]
pub struct HandshakeForward {
    /// The client that began the handshake.
    pub client_addr: SocketAddr,
    /// Size of the client's packet.
    pub data_len: usize,
    /// When waiting ends, in nanoseconds.
    pub deadline_ns: u128,
    /// Where it stands.
    pub phase: ForwardPhase,
}

/// Everything that a step changes.
#[verifier::ext_equal]
pub struct Outcome {
    pub forward: HandshakeForward,
    pub action: ForwardAction,
    pub table: Map<u64, RelaySession>,
    pub metrics: RelayMetrics,
}

/// Whether the reassembler refused the fragment.
pub open spec fn refused(before: ReassemblyStats, after: ReassemblyStats) -> bool {
    ||| after.fragments_dropped > before.fragments_dropped
    ||| after.entries_rejected > before.entries_rejected
    ||| after.fragments_duplicate > before.fragments_duplicate
}

/// The local address of a socket that talks to `upstream`: any, in the same family.
pub open spec fn any_local(upstream: SocketAddr) -> Seq<char> {
    if upstream.ip is V6 {
        "[::]:0"@
    } else {
        "0.0.0.0:0"@
    }
}

/// The local address to bind a socket to that talks to `upstream`.
pub fn bind_addr_for(upstream: SocketAddr) -> (s: &'static str)
    ensures
        s@ == any_local(upstream),
{
    if upstream.is_ipv6() {
        "[::]:0"
    } else {
        "0.0.0.0:0"
    }
}

impl HandshakeForward {
    /// At the beginning of phase `phase`.
    pub open spec fn in_phase(self, phase: ForwardPhase) -> HandshakeForward {
        HandshakeForward { phase, ..self }
    }

    /// It is over and one packet counts as dropped.
    pub open spec fn lost(self, t: Map<u64, RelaySession>, m: RelayMetrics) -> Outcome {
        Outcome {
            forward: self.in_phase(ForwardPhase::Done),
            action: ForwardAction::Finish,
            table: t,
            metrics: m.dropped(),
        }
    }

    /// It is over.
    pub open spec fn over(self, t: Map<u64, RelaySession>, m: RelayMetrics) -> Outcome {
        Outcome {
            forward: self.in_phase(ForwardPhase::Done),
            action: ForwardAction::Finish,
            table: t,
            metrics: m,
        }
    }

    /// Wait for another datagram until the deadline; at the deadline it is lost.
    pub open spec fn waiting(self, t: Map<u64, RelaySession>, m: RelayMetrics, now_ns: u128) -> Outcome {
        let left = monus(self.deadline_ns as nat, now_ns as nat);
        if left == 0 {
            self.lost(t, m)
        } else {
            Outcome {
                forward: self.in_phase(ForwardPhase::Waiting),
                action: ForwardAction::Receive { timeout_ns: left as u128 },
                table: t,
                metrics: m,
            }
        }
    }

    /// Go on to `phase` by `action`.
    pub open spec fn going(
        self,
        phase: ForwardPhase,
        action: ForwardAction,
        t: Map<u64, RelaySession>,
        m: RelayMetrics,
    ) -> Outcome {
        Outcome { forward: self.in_phase(phase), action, table: t, metrics: m }
    }

    /// A datagram came. A response binds its session before it goes to the client. What is
    /// malformed or unexpected is dropped, and waiting goes on.
    pub open spec fn on_datagram(
        self,
        len: usize,
        header: Option<PacketHeader>,
        inner: Option<MessageType>,
        t: Map<u64, RelaySession>,
        l: SessionLimits,
        m: RelayMetrics,
        now_ns: u128,
    ) -> Outcome {
        match header {
            None => self.waiting(t, m.dropped(), now_ns),
            Some(h) => match h.msg_type {
                MessageType::HandshakeResponse => {
                    let b = binding(t, l, h.session_id, self.client_addr, now_ns);
                    if b.0 {
                        self.going(
                            ForwardPhase::DeliveringResponse { session_id: h.session_id, len },
                            ForwardAction::SendToClient,
                            b.1,
                            m,
                        )
                    } else {
                        self.lost(b.1, m)
                    }
                },
                MessageType::HandshakeFragment => if inner == Some(
                    MessageType::HandshakeResponse,
                ) {
                    self.going(
                        ForwardPhase::Reassembling { len },
                        ForwardAction::Reassemble,
                        t,
                        m,
                    )
                } else {
                    self.waiting(t, m.dropped(), now_ns)
                },
                MessageType::CookieRequest => self.going(
                    ForwardPhase::DeliveringCookie { len },
                    ForwardAction::SendToClient,
                    t,
                    m,
                ),
                _ => self.waiting(t, m.dropped(), now_ns),
            },
        }
    }

    /// What follows an event at `now_ns`.
    pub open spec fn progress(
        self,
        event: ForwardEvent,
        t: Map<u64, RelaySession>,
        l: SessionLimits,
        m: RelayMetrics,
        now_ns: u128,
    ) -> Outcome {
        match (self.phase, event) {
            (ForwardPhase::Binding, ForwardEvent::Bound(ok)) => if ok {
                self.going(ForwardPhase::Connecting, ForwardAction::Connect, t, m)
            } else {
                self.lost(t, m)
            },
            (ForwardPhase::Connecting, ForwardEvent::Connected(ok)) => if ok {
                self.going(ForwardPhase::Sending, ForwardAction::SendUpstream, t, m)
            } else {
                self.lost(t, m)
            },
            (ForwardPhase::Sending, ForwardEvent::Sent(ok)) => if ok {
                (HandshakeForward {
                    deadline_ns: (if now_ns + HANDSHAKE_RESPONSE_TIMEOUT_NS <= u128::MAX {
                        now_ns + HANDSHAKE_RESPONSE_TIMEOUT_NS
                    } else {
                        u128::MAX as int
                    }) as u128,
                    ..self
                }).waiting(t, m.forwarded(self.data_len), now_ns)
            } else {
                self.lost(t, m)
            },
            (ForwardPhase::Waiting, ForwardEvent::TimedOut) => self.lost(t, m),
            (ForwardPhase::Waiting, ForwardEvent::ReceiveFailed) => self.lost(t, m),
            (
                ForwardPhase::Waiting,
                ForwardEvent::Received { len, header, inner },
            ) => self.on_datagram(len, header, inner, t, l, m, now_ns),
            (
                ForwardPhase::Reassembling { len },
                ForwardEvent::Reassembled { before, after, completion },
            ) => if refused(before, after) {
                self.waiting(t, m.dropped(), now_ns)
            } else {
                self.going(
                    ForwardPhase::DeliveringFragment { completion, len },
                    ForwardAction::SendToClient,
                    t,
                    m,
                )
            },
            (
                ForwardPhase::DeliveringResponse { session_id, len },
                ForwardEvent::Delivered(ok),
            ) => if ok {
                self.over(t, m.returned(len).session_created())
            } else {
                self.lost(t.remove(session_id.0), m)
            },
            (
                ForwardPhase::DeliveringFragment { completion, len },
                ForwardEvent::Delivered(ok),
            ) => if !ok {
                self.lost(t, m)
            } else {
                match completion {
                    Completion::Missing => self.waiting(t, m.returned(len), now_ns),
                    Completion::TooShort => self.lost(t, m.returned(len)),
                    Completion::Session(session_id) => {
                        let b = binding(t, l, session_id, self.client_addr, now_ns);
                        if b.0 {
                            self.over(b.1, m.returned(len).session_created())
                        } else {
                            self.lost(b.1, m.returned(len))
                        }
                    },
                }
            },
            (ForwardPhase::DeliveringCookie { len }, ForwardEvent::Delivered(ok)) => if ok {
                self.over(t, m.returned(len))
            } else {
                self.lost(t, m)
            },
            _ => self.over(t, m),
        }
    }

    /// A handshake packet of `data_len` bytes from `client_addr`, whose socket is to be bound.
    pub fn new(client_addr: SocketAddr, data_len: usize) -> (f: HandshakeForward)
        ensures
            f == (HandshakeForward {
                client_addr,
                data_len,
                deadline_ns: 0,
                phase: ForwardPhase::Binding,
            }),
    {
        HandshakeForward { client_addr, data_len, deadline_ns: 0, phase: ForwardPhase::Binding }
    }

    fn lose(&mut self, metrics: &mut RelayMetrics) -> (a: ForwardAction)
        ensures
            a == ForwardAction::Finish,
            *final(self) == old(self).in_phase(ForwardPhase::Done),
            *final(metrics) == old(metrics).dropped(),
    {
        metrics.record_drop();
        self.phase = ForwardPhase::Done;
        ForwardAction::Finish
    }

    fn wait(&mut self, metrics: &mut RelayMetrics, now_ns: u128) -> (a: ForwardAction)
        ensures
            forall|t: Map<u64, RelaySession>|
                #![trigger old(self).waiting(t, *old(metrics), now_ns)]
                old(self).waiting(t, *old(metrics), now_ns) == (Outcome {
                    forward: *final(self),
                    action: a,
                    table: t,
                    metrics: *final(metrics),
                }),
    {
        let left: u128 = self.deadline_ns.saturating_sub(now_ns);
        if left == 0 {
            return self.lose(metrics);
        }
        self.phase = ForwardPhase::Waiting;
        ForwardAction::Receive { timeout_ns: left }
    }

    fn datagram(
        &mut self,
        len: usize,
        header: Option<PacketHeader>,
        inner: Option<MessageType>,
        sessions: &mut SessionManager,
        metrics: &mut RelayMetrics,
        now_ns: u128,
    ) -> (a: ForwardAction)
        requires
            old(sessions).wf(),
        ensures
            final(sessions).wf(),
            final(sessions).settings() == old(sessions).settings(),
            (Outcome {
                forward: *final(self),
                action: a,
                table: final(sessions).table(),
                metrics: *final(metrics),
            }) == old(self).on_datagram(
                len,
                header,
                inner,
                old(sessions).table(),
                old(sessions).settings(),
                *old(metrics),
                now_ns,
            ),
    {
        let h = match header {
            None => {
                metrics.record_drop();
                return self.wait(metrics, now_ns);
            },
            Some(h) => h,
        };
        match h.msg_type {
            MessageType::HandshakeResponse => {
                if !sessions.bind_established_at(h.session_id, self.client_addr, now_ns) {
                    return self.lose(metrics);
                }
                self.phase = ForwardPhase::DeliveringResponse { session_id: h.session_id, len };
                ForwardAction::SendToClient
            },
            MessageType::HandshakeFragment => {
                let expected = match inner {
                    Some(MessageType::HandshakeResponse) => true,
                    _ => false,
                };
                if !expected {
                    metrics.record_drop();
                    return self.wait(metrics, now_ns);
                }
                self.phase = ForwardPhase::Reassembling { len };
                ForwardAction::Reassemble
            },
            MessageType::CookieRequest => {
                self.phase = ForwardPhase::DeliveringCookie { len };
                ForwardAction::SendToClient
            },
            _ => {
                metrics.record_drop();
                self.wait(metrics, now_ns)
            },
        }
    }

    /// Takes in an event at `now_ns` and says what to do next. An event that does not fit the
    /// phase ends the forwarding.
    pub fn step_at(
        &mut self,
        event: ForwardEvent,
        sessions: &mut SessionManager,
        metrics: &mut RelayMetrics,
        now_ns: u128,
    ) -> (a: ForwardAction)
        requires
            old(sessions).wf(),
        ensures
            final(sessions).wf(),
            final(sessions).settings() == old(sessions).settings(),
            (Outcome {
                forward: *final(self),
                action: a,
                table: final(sessions).table(),
                metrics: *final(metrics),
            }) == old(self).progress(
                event,
                old(sessions).table(),
                old(sessions).settings(),
                *old(metrics),
                now_ns,
            ),
    {
        match (self.phase, event) {
            (ForwardPhase::Binding, ForwardEvent::Bound(ok)) => {
                if !ok {
                    return self.lose(metrics);
                }
                self.phase = ForwardPhase::Connecting;
                ForwardAction::Connect
            },
            (ForwardPhase::Connecting, ForwardEvent::Connected(ok)) => {
                if !ok {
                    return self.lose(metrics);
                }
                self.phase = ForwardPhase::Sending;
                ForwardAction::SendUpstream
            },
            (ForwardPhase::Sending, ForwardEvent::Sent(ok)) => {
                if !ok {
                    return self.lose(metrics);
                }
                metrics.record_forward(self.data_len);
                self.deadline_ns = now_ns.saturating_add(HANDSHAKE_RESPONSE_TIMEOUT_NS);
                self.wait(metrics, now_ns)
            },
            (ForwardPhase::Waiting, ForwardEvent::TimedOut) => self.lose(metrics),
            (ForwardPhase::Waiting, ForwardEvent::ReceiveFailed) => self.lose(metrics),
            (ForwardPhase::Waiting, ForwardEvent::Received { len, header, inner }) => {
                self.datagram(len, header, inner, sessions, metrics, now_ns)
            },
            (
                ForwardPhase::Reassembling { len },
                ForwardEvent::Reassembled { before, after, completion },
            ) => {
                let rejected = after.fragments_dropped > before.fragments_dropped
                    || after.entries_rejected > before.entries_rejected
                    || after.fragments_duplicate > before.fragments_duplicate;
                if rejected {
                    metrics.record_drop();
                    return self.wait(metrics, now_ns);
                }
                self.phase = ForwardPhase::DeliveringFragment { completion, len };
                ForwardAction::SendToClient
            },
            (ForwardPhase::DeliveringResponse { session_id, len }, ForwardEvent::Delivered(ok)) => {
                if !ok {
                    sessions.remove(session_id);
                    return self.lose(metrics);
                }
                metrics.record_return(len);
                metrics.record_session_created();
                self.phase = ForwardPhase::Done;
                ForwardAction::Finish
            },
            (ForwardPhase::DeliveringFragment { completion, len }, ForwardEvent::Delivered(ok)) => {
                if !ok {
                    return self.lose(metrics);
                }
                metrics.record_return(len);
                match completion {
                    Completion::Missing => self.wait(metrics, now_ns),
                    Completion::TooShort => self.lose(metrics),
                    Completion::Session(session_id) => {
                        if !sessions.bind_established_at(session_id, self.client_addr, now_ns) {
                            return self.lose(metrics);
                        }
                        metrics.record_session_created();
                        self.phase = ForwardPhase::Done;
                        ForwardAction::Finish
                    },
                }
            },
            (ForwardPhase::DeliveringCookie { len }, ForwardEvent::Delivered(ok)) => {
                if !ok {
                    return self.lose(metrics);
                }
                metrics.record_return(len);
                self.phase = ForwardPhase::Done;
                ForwardAction::Finish
            },
            _ => {
                self.phase = ForwardPhase::Done;
                ForwardAction::Finish
            },
        }
    }

    /// Takes in an event now and says what to do next.
    pub fn step(
        &mut self,
        event: ForwardEvent,
        sessions: &mut SessionManager,
        metrics: &mut RelayMetrics,
    ) -> (a: ForwardAction)
        requires
            old(sessions).wf(),
        ensures
            final(sessions).wf(),
            final(sessions).settings() == old(sessions).settings(),
            exists|now_ns: u128|
                old(sessions).settings().clock.reads_ns(now_ns) && (Outcome {
                    forward: *final(self),
                    action: a,
                    table: final(sessions).table(),
                    metrics: *final(metrics),
                }) == #[trigger] old(self).progress(
                    event,
                    old(sessions).table(),
                    old(sessions).settings(),
                    *old(metrics),
                    now_ns,
                ),
    {
        let now: u128 = sessions.now_ns();
        self.step_at(event, sessions, metrics, now)
    }
}

/// Whether an event completes a response of the upstream that names session `k`.
pub open spec fn names_session(phase: ForwardPhase, event: ForwardEvent, k: u64) -> bool {
    match (phase, event) {
        (ForwardPhase::Waiting, ForwardEvent::Received { header, .. }) => header == Some(
            PacketHeader { msg_type: MessageType::HandshakeResponse, session_id: SessionId(k) },
        ),
        (
            ForwardPhase::DeliveringFragment { completion, .. },
            ForwardEvent::Delivered(ok),
        ) => ok && completion == Completion::Session(SessionId(k)),
        _ => false,
    }
}

/// A session comes into the table only for the client that began the handshake, and only from a
/// response that the upstream sent: in one datagram, or completely reassembled.
pub proof fn law_sessions_come_from_upstream_responses(
    f: HandshakeForward,
    event: ForwardEvent,
    t: Map<u64, RelaySession>,
    l: SessionLimits,
    m: RelayMetrics,
    now_ns: u128,
    k: u64,
)
    requires
        !t.contains_key(k),
        f.progress(event, t, l, m, now_ns).table.contains_key(k),
    ensures
        k != 0,
        f.progress(event, t, l, m, now_ns).table[k].client_addr == f.client_addr,
        names_session(f.phase, event, k),
{
}

/// When a response cannot be delivered, its session goes and every other session stays as it is.
pub proof fn law_undelivered_response_is_rolled_back(
    f: HandshakeForward,
    t: Map<u64, RelaySession>,
    l: SessionLimits,
    m: RelayMetrics,
    len: usize,
    inner: Option<MessageType>,
    session_id: SessionId,
    now_ns: u128,
    later_ns: u128,
)
    requires
        f.phase is Waiting,
        t.dom().len() < l.max_sessions,
        binding(t, l, session_id, f.client_addr, now_ns).0,
    ensures
        ({
            let first = f.progress(
                ForwardEvent::Received {
                    len,
                    header: Some(
                        PacketHeader { msg_type: MessageType::HandshakeResponse, session_id },
                    ),
                    inner,
                },
                t,
                l,
                m,
                now_ns,
            );
            let second = first.forward.progress(
                ForwardEvent::Delivered(false),
                first.table,
                l,
                first.metrics,
                later_ns,
            );
            &&& first.action == ForwardAction::SendToClient
            &&& second.action == ForwardAction::Finish
            &&& second.table == t
            &&& second.metrics == m.dropped()
        }),
{
    let first = f.on_datagram(
        len,
        Some(PacketHeader { msg_type: MessageType::HandshakeResponse, session_id }),
        inner,
        t,
        l,
        m,
        now_ns,
    );
    assert(first.table.remove(session_id.0) =~= t);
}

/// Nothing reaches the client that the reassembler refused.
pub proof fn law_refused_fragments_stay_here(
    f: HandshakeForward,
    before: ReassemblyStats,
    after: ReassemblyStats,
    completion: Completion,
    t: Map<u64, RelaySession>,
    l: SessionLimits,
    m: RelayMetrics,
    now_ns: u128,
)
    requires
        f.phase is Reassembling,
        refused(before, after),
    ensures
        f.progress(
            ForwardEvent::Reassembled { before, after, completion },
            t,
            l,
            m,
            now_ns,
        ).action != ForwardAction::SendToClient,
        f.progress(ForwardEvent::Reassembled { before, after, completion }, t, l, m, now_ns).table
            == t,
{
}

/// Waiting never outlasts the deadline, which is five seconds after the packet was sent.
pub proof fn law_waiting_is_bounded(
    f: HandshakeForward,
    event: ForwardEvent,
    t: Map<u64, RelaySession>,
    l: SessionLimits,
    m: RelayMetrics,
    now_ns: u128,
)
    requires
        f.phase is Waiting ==> monus(f.deadline_ns as nat, now_ns as nat)
            <= HANDSHAKE_RESPONSE_TIMEOUT_NS,
        f.phase is Reassembling ==> monus(f.deadline_ns as nat, now_ns as nat)
            <= HANDSHAKE_RESPONSE_TIMEOUT_NS,
        f.phase is DeliveringFragment ==> monus(f.deadline_ns as nat, now_ns as nat)
            <= HANDSHAKE_RESPONSE_TIMEOUT_NS,
    ensures
        f.progress(event, t, l, m, now_ns).action matches ForwardAction::Receive { timeout_ns }
            ==> 0 < timeout_ns <= HANDSHAKE_RESPONSE_TIMEOUT_NS,
{
}

/// After the end nothing changes any more.
pub proof fn law_done_is_final(
    f: HandshakeForward,
    event: ForwardEvent,
    t: Map<u64, RelaySession>,
    l: SessionLimits,
    m: RelayMetrics,
    now_ns: u128,
)
    requires
        f.phase is Done,
    ensures
        f.progress(event, t, l, m, now_ns) == (Outcome {
            forward: f,
            action: ForwardAction::Finish,
            table: t,
            metrics: m,
        }),
{
}

/// As long as everything goes well, the socket is bound, connected and used to send the client's
/// packet, which counts as forwarded; then the answer is awaited for five seconds.
pub proof fn law_a_handshake_is_forwarded(
    f: HandshakeForward,
    t: Map<u64, RelaySession>,
    l: SessionLimits,
    m: RelayMetrics,
    t1: u128,
    t2: u128,
    t3: u128,
)
    requires
        f.phase is Binding,
        t3 + 5_000_000_000 <= u128::MAX,
        m.packets_forwarded < u64::MAX,
        m.bytes_forwarded + f.data_len <= u64::MAX,
    ensures
        ({
            let a = f.progress(ForwardEvent::Bound(true), t, l, m, t1);
            let b = a.forward.progress(ForwardEvent::Connected(true), a.table, l, a.metrics, t2);
            let c = b.forward.progress(ForwardEvent::Sent(true), b.table, l, b.metrics, t3);
            &&& a.action == ForwardAction::Connect
            &&& b.action == ForwardAction::SendUpstream
            &&& c.action == (ForwardAction::Receive { timeout_ns: 5_000_000_000 })
            &&& c.forward.phase is Waiting
            &&& c.forward.deadline_ns == t3 + 5_000_000_000
            &&& c.forward.client_addr == f.client_addr
            &&& c.table == t
            &&& c.metrics.packets_forwarded == m.packets_forwarded + 1
            &&& c.metrics.bytes_forwarded == m.bytes_forwarded + f.data_len
            &&& c.metrics.packets_dropped == m.packets_dropped
        }),
{
}

/// A response that comes in time goes to the client; when it arrives, its session is there, bound
/// to the client, and counted.
pub proof fn law_responses_are_delivered(
    f: HandshakeForward,
    t: Map<u64, RelaySession>,
    l: SessionLimits,
    m: RelayMetrics,
    len: usize,
    inner: Option<MessageType>,
    session_id: SessionId,
    now_ns: u128,
    later_ns: u128,
)
    requires
        f.phase is Waiting,
        binding(t, l, session_id, f.client_addr, now_ns).0,
        m.packets_returned < u64::MAX,
        m.bytes_returned + len <= u64::MAX,
        m.sessions_total < u64::MAX,
        m.sessions_active < u64::MAX,
    ensures
        ({
            let header = PacketHeader { msg_type: MessageType::HandshakeResponse, session_id };
            let a = f.progress(
                ForwardEvent::Received { len, header: Some(header), inner },
                t,
                l,
                m,
                now_ns,
            );
            let b = a.forward.progress(
                ForwardEvent::Delivered(true),
                a.table,
                l,
                a.metrics,
                later_ns,
            );
            &&& a.action == ForwardAction::SendToClient
            &&& b.action == ForwardAction::Finish
            &&& b.forward.phase is Done
            &&& b.table.contains_key(session_id.0)
            &&& b.table[session_id.0].client_addr == f.client_addr
            &&& b.metrics.packets_returned == m.packets_returned + 1
            &&& b.metrics.bytes_returned == m.bytes_returned + len
            &&& b.metrics.sessions_total == m.sessions_total + 1
            &&& b.metrics.sessions_active == m.sessions_active + 1
            &&& b.metrics.packets_dropped == m.packets_dropped
        }),
{
}

/// A response for which there is no room is dropped: nothing goes to the client, and it is over.
pub proof fn law_responses_without_room_are_dropped(
    f: HandshakeForward,
    t: Map<u64, RelaySession>,
    l: SessionLimits,
    m: RelayMetrics,
    len: usize,
    inner: Option<MessageType>,
    session_id: SessionId,
    now_ns: u128,
)
    requires
        f.phase is Waiting,
        !binding(t, l, session_id, f.client_addr, now_ns).0,
        m.packets_dropped < u64::MAX,
    ensures
        ({
            let header = PacketHeader { msg_type: MessageType::HandshakeResponse, session_id };
            let a = f.progress(
                ForwardEvent::Received { len, header: Some(header), inner },
                t,
                l,
                m,
                now_ns,
            );
            &&& a.action == ForwardAction::Finish
            &&& a.forward.phase is Done
            &&& a.metrics.packets_dropped == m.packets_dropped + 1
            &&& a.metrics.packets_returned == m.packets_returned
            &&& a.metrics.sessions_total == m.sessions_total
        }),
{
}

/// Whether an event says that something failed or came too late.
pub open spec fn failed(phase: ForwardPhase, event: ForwardEvent) -> bool {
    match (phase, event) {
        (ForwardPhase::Binding, ForwardEvent::Bound(ok)) => !ok,
        (ForwardPhase::Connecting, ForwardEvent::Connected(ok)) => !ok,
        (ForwardPhase::Sending, ForwardEvent::Sent(ok)) => !ok,
        (ForwardPhase::Waiting, ForwardEvent::TimedOut) => true,
        (ForwardPhase::Waiting, ForwardEvent::ReceiveFailed) => true,
        (ForwardPhase::DeliveringFragment { .. }, ForwardEvent::Delivered(ok)) => !ok,
        (ForwardPhase::DeliveringCookie { .. }, ForwardEvent::Delivered(ok)) => !ok,
        _ => false,
    }
}

/// What fails is over and counts as dropped once; nothing else changes.
pub proof fn law_failures_end_the_handshake(
    f: HandshakeForward,
    event: ForwardEvent,
    t: Map<u64, RelaySession>,
    l: SessionLimits,
    m: RelayMetrics,
    now_ns: u128,
)
    requires
        failed(f.phase, event),
        m.packets_dropped < u64::MAX,
    ensures
        ({
            let a = f.progress(event, t, l, m, now_ns);
            &&& a.action == ForwardAction::Finish
            &&& a.forward.phase is Done
            &&& a.table == t
            &&& a.metrics == (RelayMetrics {
                packets_dropped: (m.packets_dropped + 1) as u64,
                ..m
            })
        }),
{
}

/// Whether a datagram is no part of an answer: it has no valid header, it is a fragment of
/// something else, or it is neither a response nor a fragment nor a cookie request.
pub open spec fn stray(header: Option<PacketHeader>, inner: Option<MessageType>) -> bool {
    match header {
        None => true,
        Some(h) => {
            ||| h.msg_type is HandshakeFragment && inner != Some(MessageType::HandshakeResponse)
            ||| !(h.msg_type is HandshakeResponse || h.msg_type is HandshakeFragment || h.msg_type
                is CookieRequest)
        },
    }
}

/// A stray datagram does not disturb: it is dropped, and the answer is awaited for the time that
/// is left.
pub proof fn law_strays_do_not_disturb(
    f: HandshakeForward,
    len: usize,
    header: Option<PacketHeader>,
    inner: Option<MessageType>,
    t: Map<u64, RelaySession>,
    l: SessionLimits,
    m: RelayMetrics,
    now_ns: u128,
)
    requires
        f.phase is Waiting,
        stray(header, inner),
        now_ns < f.deadline_ns,
        m.packets_dropped < u64::MAX,
    ensures
        ({
            let a = f.progress(ForwardEvent::Received { len, header, inner }, t, l, m, now_ns);
            &&& a.action == (ForwardAction::Receive {
                timeout_ns: (f.deadline_ns - now_ns) as u128,
            })
            &&& a.forward == f
            &&& a.table == t
            &&& a.metrics.packets_dropped == m.packets_dropped + 1
        }),
{
}

/// A fragment of a response that the reassembler takes goes to the client. While others are
/// missing the next is awaited for the time that is left; the last one binds the session that the
/// response names.
pub proof fn law_fragments_are_delivered(
    f: HandshakeForward,
    len: usize,
    session_id: SessionId,
    before: ReassemblyStats,
    after: ReassemblyStats,
    completion: Completion,
    t: Map<u64, RelaySession>,
    l: SessionLimits,
    m: RelayMetrics,
    now_ns: u128,
)
    requires
        f.phase is Waiting,
        now_ns < f.deadline_ns,
        after == before,
        m.packets_returned < u64::MAX,
        m.bytes_returned + len <= u64::MAX,
        m.sessions_total < u64::MAX,
    ensures
        ({
            let header = PacketHeader { msg_type: MessageType::HandshakeFragment, session_id };
            let a = f.progress(
                ForwardEvent::Received {
                    len,
                    header: Some(header),
                    inner: Some(MessageType::HandshakeResponse),
                },
                t,
                l,
                m,
                now_ns,
            );
            let b = a.forward.progress(
                ForwardEvent::Reassembled { before, after, completion },
                a.table,
                l,
                a.metrics,
                now_ns,
            );
            let c = b.forward.progress(
                ForwardEvent::Delivered(true),
                b.table,
                l,
                b.metrics,
                now_ns,
            );
            &&& a.action == ForwardAction::Reassemble
            &&& b.action == ForwardAction::SendToClient
            &&& c.metrics.packets_returned == m.packets_returned + 1
            &&& c.metrics.bytes_returned == m.bytes_returned + len
            &&& completion is Missing ==> c.action == (ForwardAction::Receive {
                timeout_ns: (f.deadline_ns - now_ns) as u128,
            }) && c.forward == f && c.table == t
            &&& completion is TooShort ==> c.action == ForwardAction::Finish && c.table == t
            &&& completion matches Completion::Session(id) ==> {
                let bound = binding(t, l, id, f.client_addr, now_ns);
                &&& c.action == ForwardAction::Finish
                &&& bound.0 ==> c.table.contains_key(id.0) && c.table[id.0].client_addr
                    == f.client_addr && c.metrics.sessions_total == m.sessions_total + 1
                &&& !bound.0 ==> c.metrics.sessions_total == m.sessions_total
            }
        }),
{
}

/// A cookie request goes to the client, counts as returned, and ends the handshake without a
/// session.
pub proof fn law_cookie_requests_are_delivered(
    f: HandshakeForward,
    len: usize,
    session_id: SessionId,
    inner: Option<MessageType>,
    t: Map<u64, RelaySession>,
    l: SessionLimits,
    m: RelayMetrics,
    now_ns: u128,
    later_ns: u128,
)
    requires
        f.phase is Waiting,
        m.packets_returned < u64::MAX,
        m.bytes_returned + len <= u64::MAX,
    ensures
        ({
            let header = PacketHeader { msg_type: MessageType::CookieRequest, session_id };
            let a = f.progress(
                ForwardEvent::Received { len, header: Some(header), inner },
                t,
                l,
                m,
                now_ns,
            );
            let b = a.forward.progress(
                ForwardEvent::Delivered(true),
                a.table,
                l,
                a.metrics,
                later_ns,
            );
            &&& a.action == ForwardAction::SendToClient
            &&& b.action == ForwardAction::Finish
            &&& b.table == t
            &&& b.metrics.packets_returned == m.packets_returned + 1
            &&& b.metrics.bytes_returned == m.bytes_returned + len
            &&& b.metrics.sessions_total == m.sessions_total
        }),
{
}

/// Whatever happens, a handshake never waits beyond its deadline: at the deadline it is over.
pub proof fn law_the_deadline_ends_the_wait(
    f: HandshakeForward,
    event: ForwardEvent,
    t: Map<u64, RelaySession>,
    l: SessionLimits,
    m: RelayMetrics,
    now_ns: u128,
)
    requires
        !(f.phase is Sending),
        now_ns >= f.deadline_ns,
    ensures
        !(f.progress(event, t, l, m, now_ns).action is Receive),
{
}

/// An event that does not belong to where the handshake stands ends it and changes nothing else.
pub proof fn law_misplaced_events_end_the_handshake(
    f: HandshakeForward,
    event: ForwardEvent,
    t: Map<u64, RelaySession>,
    l: SessionLimits,
    m: RelayMetrics,
    now_ns: u128,
)
    requires
        f.phase is Binding ==> !(event is Bound),
        f.phase is Connecting ==> !(event is Connected),
        f.phase is Sending ==> !(event is Sent),
        f.phase is Waiting ==> !(event is TimedOut) && !(event is ReceiveFailed) && !(event
            is Received),
        f.phase is Reassembling ==> !(event is Reassembled),
        f.phase is DeliveringResponse || f.phase is DeliveringFragment || f.phase
            is DeliveringCookie ==> !(event is Delivered),
    ensures
        ({
            let a = f.progress(event, t, l, m, now_ns);
            &&& a.action == ForwardAction::Finish
            &&& a.forward.phase is Done
            &&& a.table == t
            &&& a.metrics == m
        }),
{
}

/// A fragment is refused when the reassembler dropped it, rejected it or had it before, and only
/// then.
pub proof fn law_refusals_are_seen(before: ReassemblyStats, after: ReassemblyStats)
    requires
        after.fragments_dropped >= before.fragments_dropped,
        after.entries_rejected >= before.entries_rejected,
        after.fragments_duplicate >= before.fragments_duplicate,
    ensures
        refused(before, after) <==> after != before,
{
}

} // verus!
