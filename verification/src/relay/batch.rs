//! Batches of packets that are received or sent with one system call.

use crate::be::{be_bytes, be_value, fits, from_be, lemma_be_round_trip, to_be};
use crate::net::{IpAddr, SocketAddr};
use vstd::prelude::*;

verus! {

/// Maximum packets per call.
pub const MAX_BATCH_SIZE: usize = 64;

/// Default buffer size per packet (MTU + overhead).
pub const DEFAULT_BUFFER_SIZE: usize = 1500;

/// Most calls that one batch is sent with.
pub const MAX_SEND_ATTEMPTS: u32 = 3;

/// Address family number of IPv4.
pub const FAMILY_INET: u16 = 2;

/// Address family number of IPv6.
pub const FAMILY_INET6: u16 = 10;

/// The smaller of two sizes.
pub open spec fn at_most(n: usize, max: usize) -> usize {
    if n < max {
        n
    } else {
        max
    }
}

fn min_size(n: usize, max: usize) -> (r: usize)
    ensures
        r == at_most(n, max),
{
    if n < max {
        n
    } else {
        max
    }
}

/// A packet as the system reported it.
pub struct ReceivedPacket {
    /// The buffer that it was written to.
    pub buffer: Vec<u8>,
    /// The length that was reported.
    pub reported_len: usize,
    /// Its source, if the address is of a known family.
    pub source: Option<SocketAddr>,
}

/// Received packets.
pub struct RecvBatch {
    /// Most packets that one call receives.
    pub batch_size: usize,
    /// Size of each buffer.
    pub buffer_size: usize,
    /// The packets of the last call.
    pub packets: Vec<ReceivedPacket>,
}

impl RecvBatch {
    /// The packets of the last call.
    pub open spec fn received(self) -> Seq<ReceivedPacket> {
        self.packets@
    }

    /// Create a new batch receiver for at most [`MAX_BATCH_SIZE`] packets.
    pub fn new(batch_size: usize, buffer_size: usize) -> (b: RecvBatch)
        ensures
            b.batch_size == at_most(batch_size, MAX_BATCH_SIZE),
            b.buffer_size == buffer_size,
            b.received() == Seq::<ReceivedPacket>::empty(),
    {
        RecvBatch {
            batch_size: min_size(batch_size, MAX_BATCH_SIZE),
            buffer_size,
            packets: Vec::new(),
        }
    }

    /// Takes in the packets of a call.
    pub fn store(&mut self, packets: Vec<ReceivedPacket>)
        ensures
            final(self).received() == packets@,
            final(self).batch_size == old(self).batch_size,
            final(self).buffer_size == old(self).buffer_size,
    {
        self.packets = packets;
    }

    /// Get packet data and source address for a received packet. The reported length is not
    /// trusted beyond the buffer.
    pub fn get(&self, index: usize) -> (r: (&[u8], Option<SocketAddr>))
        requires
            index < self.received().len(),
        ensures
            r.0@ == self.received()[index as int].buffer@.take(
                at_most(
                    self.received()[index as int].reported_len,
                    self.received()[index as int].buffer@.len() as usize,
                ) as int,
            ),
            r.1 == self.received()[index as int].source,
    {
        let p = &self.packets[index];
        let len: usize = min_size(p.reported_len, p.buffer.len());
        let data = vstd::slice::slice_subrange(p.buffer.as_slice(), 0, len);
        proof {
            assert(p.buffer@.take(len as int) =~= p.buffer@.subrange(0, len as int));
        }
        (data, p.source)
    }

    /// Number of packets in the last call.
    pub fn count(&self) -> (n: usize)
        ensures
            n == self.received().len(),
    {
        self.packets.len()
    }
}

/// A packet that waits to be sent.
pub struct QueuedPacket {
    pub data: Vec<u8>,
    pub addr: SocketAddr,
}

/// How one call to send a batch went.
#[derive(Clone, Copy, Debug, PartialEq, Eq, Structural)]
pub enum SendOutcome {
    /// So many packets were sent.
    Sent(usize),
    /// None can be sent right now.
    WouldBlock,
    /// It failed.
    Failed,
}

/// What to do next with a batch.
#[derive(Clone, Copy, Debug, PartialEq, Eq, Structural)]
pub enum FlushAction {
    /// Send `count` packets from position `from` on.
    Send { from: usize, count: usize },
    /// So many packets were sent; the rest is given up.
    Done(usize),
    /// Sending failed.
    Failed,
}

/// Sending one batch, in a bounded number of calls.
#[derive(Clone, Copy, Debug, PartialEq, Eq, Structural)]
pub struct FlushRun {
    pub total: usize,
    pub sent: usize,
    pub attempts: u32,
}

impl FlushRun {
    /// Never more sent than there is.
    pub open spec fn wf(self) -> bool {
        self.sent <= self.total
    }

    /// What to do before the next call.
    pub open spec fn next(self) -> FlushAction {
        if self.sent == self.total || self.attempts >= MAX_SEND_ATTEMPTS {
            FlushAction::Done(self.sent)
        } else {
            FlushAction::Send { from: self.sent, count: (self.total - self.sent) as usize }
        }
    }

    /// The run after a call, and what to do then.
    pub open spec fn after(self, outcome: SendOutcome) -> (FlushRun, FlushAction) {
        match outcome {
            SendOutcome::Failed => (self, FlushAction::Failed),
            SendOutcome::WouldBlock => (self, FlushAction::Done(self.sent)),
            SendOutcome::Sent(n) => {
                let r = FlushRun {
                    sent: (self.sent + n) as usize,
                    attempts: (self.attempts + 1) as u32,
                    ..self
                };
                if n == 0 {
                    (r, FlushAction::Done(r.sent))
                } else {
                    (r, r.next())
                }
            },
        }
    }

    /// Begins to send `total` packets.
    pub fn start(total: usize) -> (r: (FlushRun, FlushAction))
        ensures
            r.0 == (FlushRun { total, sent: 0, attempts: 0 }),
            r.1 == r.0.next(),
            r.0.wf(),
    {
        let run = FlushRun { total, sent: 0, attempts: 0 };
        let a = run.plan();
        (run, a)
    }

    fn plan(&self) -> (a: FlushAction)
        requires
            self.wf(),
        ensures
            a == self.next(),
    {
        if self.sent == self.total || self.attempts >= MAX_SEND_ATTEMPTS {
            FlushAction::Done(self.sent)
        } else {
            FlushAction::Send { from: self.sent, count: self.total - self.sent }
        }
    }

    /// Takes in how the last call went.
    pub fn step(&mut self, outcome: SendOutcome) -> (a: FlushAction)
        requires
            old(self).wf(),
            old(self).attempts < MAX_SEND_ATTEMPTS,
            outcome matches SendOutcome::Sent(n) ==> n <= old(self).total - old(self).sent,
        ensures
            (*final(self), a) == old(self).after(outcome),
            final(self).wf(),
    {
        match outcome {
            SendOutcome::Failed => FlushAction::Failed,
            SendOutcome::WouldBlock => FlushAction::Done(self.sent),
            SendOutcome::Sent(n) => {
                self.sent = self.sent + n;
                self.attempts = self.attempts + 1;
                if n == 0 {
                    FlushAction::Done(self.sent)
                } else {
                    self.plan()
                }
            },
        }
    }
}

/// Packets that wait to be sent with one call.
pub struct SendBatch {
    batch_size: usize,
    buffer_size: usize,
    packets: Vec<QueuedPacket>,
}

impl SendBatch {
    /// The packets in order.
    pub closed spec fn queued(self) -> Seq<QueuedPacket> {
        self.packets@
    }

    /// Most packets, and most bytes of each.
    pub closed spec fn capacity(self) -> (usize, usize) {
        (self.batch_size, self.buffer_size)
    }

    /// Never more packets than fit.
    pub closed spec fn wf(self) -> bool {
        self.packets@.len() <= self.batch_size
    }

    /// Create a new batch sender for at most [`MAX_BATCH_SIZE`] packets.
    pub fn new(batch_size: usize, buffer_size: usize) -> (b: SendBatch)
        ensures
            b.wf(),
            b.capacity() == (at_most(batch_size, MAX_BATCH_SIZE), buffer_size),
            b.queued() == Seq::<QueuedPacket>::empty(),
    {
        SendBatch {
            batch_size: min_size(batch_size, MAX_BATCH_SIZE),
            buffer_size,
            packets: Vec::new(),
        }
    }

    /// Add a packet to the send batch; what does not fit its buffer is cut off.
    ///
    /// Returns `true` if added, `false` if batch is full.
    pub fn add(&mut self, data: &[u8], addr: SocketAddr) -> (added: bool)
        requires
            old(self).wf(),
        ensures
            final(self).wf(),
            final(self).capacity() == old(self).capacity(),
            added == (old(self).queued().len() < old(self).capacity().0),
            !added ==> final(self).queued() == old(self).queued(),
            added ==> final(self).queued().len() == old(self).queued().len() + 1
                && final(self).queued().drop_last() == old(self).queued()
                && final(self).queued().last().addr == addr && final(self).queued().last().data@
                == data@.take(at_most(data@.len() as usize, old(self).capacity().1) as int),
    {
        if self.packets.len() >= self.batch_size {
            return false;
        }
        let len: usize = min_size(data.len(), self.buffer_size);
        let mut copy: Vec<u8> = Vec::new();
        let mut i: usize = 0;
        while i < len
            invariant
                i <= len <= data@.len(),
                copy@ == data@.take(i as int),
            decreases len - i,
        {
            copy.push(data[i]);
            proof {
                assert(data@.take(i + 1) =~= data@.take(i as int).push(data@[i as int]));
            }
            i += 1;
        }
        self.packets.push(QueuedPacket { data: copy, addr });
        proof {
            assert(self.queued().drop_last() =~= old(self).queued());
        }
        true
    }

    /// Begins to send what is queued.
    pub fn begin_flush(&self) -> (r: (FlushRun, FlushAction))
        ensures
            r.0 == (FlushRun { total: self.queued().len() as usize, sent: 0, attempts: 0 }),
            r.1 == r.0.next(),
            r.0.wf(),
    {
        FlushRun::start(self.packets.len())
    }

    /// Forgets what is queued; sending is over, whatever came of it.
    pub fn clear(&mut self)
        ensures
            final(self).wf(),
            final(self).capacity() == old(self).capacity(),
            final(self).queued() == Seq::<QueuedPacket>::empty(),
    {
        self.packets = Vec::new();
    }

    /// The packet at `index`.
    pub fn get(&self, index: usize) -> (p: &QueuedPacket)
        requires
            index < self.queued().len(),
        ensures
            *p == self.queued()[index as int],
    {
        &self.packets[index]
    }

    /// Check if the batch is full.
    pub fn is_full(&self) -> (b: bool)
        ensures
            b == (self.queued().len() >= self.capacity().0),
    {
        self.packets.len() >= self.batch_size
    }

    /// Check if the batch is empty.
    pub fn is_empty(&self) -> (b: bool)
        ensures
            b == (self.queued().len() == 0),
    {
        self.packets.len() == 0
    }
}

/// A run never reports more than the batch holds, and ends after a bounded number of calls.
pub proof fn law_flush_is_bounded(r: FlushRun, n: usize)
    requires
        r.wf(),
        r.attempts < MAX_SEND_ATTEMPTS,
        n <= r.total - r.sent,
    ensures
        r.after(SendOutcome::Sent(n)).1 matches FlushAction::Done(k) ==> k <= r.total,
        r.after(SendOutcome::Sent(n)).1 is Send ==> r.after(SendOutcome::Sent(n)).0.attempts
            < MAX_SEND_ATTEMPTS && r.after(SendOutcome::Sent(n)).0.attempts == r.attempts + 1,
{
}

/// The fields of a socket address as the system lays them out, numbers in network order.
pub struct RawAddr {
    pub family: u16,
    pub port: Vec<u8>,
    pub ip: Vec<u8>,
    pub flowinfo: u32,
    pub scope_id: u32,
}

/// What the system's fields of an address are.
pub open spec fn raw_of(a: SocketAddr) -> (u16, Seq<u8>, Seq<u8>, u32, u32) {
    match a.ip {
        IpAddr::V4(v) => (FAMILY_INET, be_bytes(a.port as nat, 2), be_bytes(v as nat, 4), 0, 0),
        IpAddr::V6(v) => (
            FAMILY_INET6,
            be_bytes(a.port as nat, 2),
            be_bytes(v as nat, 16),
            a.flowinfo,
            a.scope_id,
        ),
    }
}

/// The address that the system's fields stand for; `None` of an unknown family.
pub open spec fn addr_of(r: (u16, Seq<u8>, Seq<u8>, u32, u32)) -> Option<SocketAddr> {
    if r.0 == FAMILY_INET && r.1.len() == 2 && r.2.len() == 4 {
        Some(
            SocketAddr {
                ip: IpAddr::V4(be_value(r.2) as u32),
                port: be_value(r.1) as u16,
                flowinfo: 0,
                scope_id: 0,
            },
        )
    } else if r.0 == FAMILY_INET6 && r.1.len() == 2 && r.2.len() == 16 {
        Some(
            SocketAddr {
                ip: IpAddr::V6(be_value(r.2) as u128),
                port: be_value(r.1) as u16,
                flowinfo: r.3,
                scope_id: r.4,
            },
        )
    } else {
        None
    }
}

impl RawAddr {
    /// The fields.
    pub open spec fn fields(self) -> (u16, Seq<u8>, Seq<u8>, u32, u32) {
        (self.family, self.port@, self.ip@, self.flowinfo, self.scope_id)
    }
}

/// The system's fields of an address.
pub fn std_to_sockaddr(a: SocketAddr) -> (r: RawAddr)
    ensures
        r.fields() == raw_of(a),
{
    match a.ip {
        IpAddr::V4(v) => RawAddr {
            family: FAMILY_INET,
            port: to_be(a.port as u128, 2),
            ip: to_be(v as u128, 4),
            flowinfo: 0,
            scope_id: 0,
        },
        IpAddr::V6(v) => RawAddr {
            family: FAMILY_INET6,
            port: to_be(a.port as u128, 2),
            ip: to_be(v, 16),
            flowinfo: a.flowinfo,
            scope_id: a.scope_id,
        },
    }
}

/// The address that the system's fields stand for.
pub fn sockaddr_to_std(r: &RawAddr) -> (a: Option<SocketAddr>)
    ensures
        a == addr_of(r.fields()),
{
    if r.port.len() != 2 {
        return None;
    }
    if r.family == FAMILY_INET && r.ip.len() == 4 {
        Some(
            SocketAddr {
                ip: IpAddr::V4(from_be(&r.ip) as u32),
                port: from_be(&r.port) as u16,
                flowinfo: 0,
                scope_id: 0,
            },
        )
    } else if r.family == FAMILY_INET6 && r.ip.len() == 16 {
        Some(
            SocketAddr {
                ip: IpAddr::V6(from_be(&r.ip)),
                port: from_be(&r.port) as u16,
                flowinfo: r.flowinfo,
                scope_id: r.scope_id,
            },
        )
    } else {
        None
    }
}

/// An address survives the way to the system's layout and back.
pub proof fn law_sockaddr_round_trip(a: SocketAddr)
    requires
        a.ip is V4 ==> a.flowinfo == 0 && a.scope_id == 0,
    ensures
        addr_of(raw_of(a)) == Some(a),
{
    assert(fits(a.port as nat, 2)) by {
        reveal_with_fuel(fits, 3);
    }
    lemma_be_round_trip(a.port as nat, 2);
    match a.ip {
        IpAddr::V4(v) => {
            assert(fits(v as nat, 4)) by {
                reveal_with_fuel(fits, 5);
            }
            lemma_be_round_trip(v as nat, 4);
        },
        IpAddr::V6(v) => {
            assert(fits(v as nat, 16)) by {
                reveal_with_fuel(fits, 17);
            }
            lemma_be_round_trip(v as nat, 16);
        },
    }
}

/// A batch is sent in order and without gaps: it starts with all of it, and after some packets
/// went out the next call takes all that are left, until nothing is left, nothing goes out any
/// more, or three calls were made.
pub proof fn law_flush_sends_what_is_left(r: FlushRun, n: usize)
    requires
        r.wf(),
        n <= r.total - r.sent,
        r.attempts < 3,
    ensures
        r.attempts == 0 && r.sent == 0 && r.total > 0 ==> r.next() == (FlushAction::Send {
            from: 0,
            count: r.total,
        }),
        r.total == r.sent ==> r.next() == FlushAction::Done(r.total),
        n > 0 && r.sent + n < r.total && r.attempts < 2 ==> r.after(SendOutcome::Sent(n)).1 == (
        FlushAction::Send { from: (r.sent + n) as usize, count: (r.total - r.sent - n) as usize }),
        n == 0 || r.sent + n == r.total || r.attempts == 2 ==> r.after(SendOutcome::Sent(n)).1
            == FlushAction::Done((r.sent + n) as usize),
        r.after(SendOutcome::Sent(n)).0.sent == r.sent + n,
        r.after(SendOutcome::Sent(n)).0.total == r.total,
        r.after(SendOutcome::WouldBlock).1 == FlushAction::Done(r.sent),
        r.after(SendOutcome::Failed).1 == FlushAction::Failed,
{
}

/// The smaller of two sizes is one of them and no larger than either.
pub proof fn law_the_smaller_size(n: usize, max: usize)
    ensures
        at_most(n, max) <= n,
        at_most(n, max) <= max,
        at_most(n, max) == n || at_most(n, max) == max,
{
}

/// The system's fields of an address: family 2 or 10, and the port and the address with the
/// highest byte first; what has any other family is no address.
pub proof fn law_addresses_are_laid_out_for_the_system(a: SocketAddr, r: (u16, Seq<u8>, Seq<u8>, u32, u32))
    ensures
        raw_of(a).0 == (if a.ip is V4 {
            2u16
        } else {
            10u16
        }),
        raw_of(a).1.len() == 2,
        raw_of(a).1[0] == a.port / 256,
        raw_of(a).1[1] == a.port % 256,
        a.ip is V4 ==> raw_of(a).2.len() == 4 && be_value(raw_of(a).2) == a.ip->V4_0,
        a.ip is V6 ==> raw_of(a).2.len() == 16 && be_value(raw_of(a).2) == a.ip->V6_0
            && raw_of(a).3 == a.flowinfo && raw_of(a).4 == a.scope_id,
        r.0 != 2 && r.0 != 10 ==> addr_of(r) is None,
{
    reveal_with_fuel(be_bytes, 3);
    match a.ip {
        IpAddr::V4(v) => {
            assert(fits(v as nat, 4)) by {
                reveal_with_fuel(fits, 5);
            }
            lemma_be_round_trip(v as nat, 4);
        },
        IpAddr::V6(v) => {
            assert(fits(v as nat, 16)) by {
                reveal_with_fuel(fits, 17);
            }
            lemma_be_round_trip(v as nat, 16);
        },
    }
}

} // verus!
