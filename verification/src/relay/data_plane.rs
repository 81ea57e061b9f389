//! The relay's data plane when packets come and go in batches.
//!
//! A received packet is decided on and, if it may pass, queued. When the queue is full it is to be
//! sent at once, and again when the batch is through.

use crate::net::SocketAddr;
use crate::relay::batch::{QueuedPacket, ReceivedPacket, RecvBatch, SendBatch, at_most};
use crate::relay::server::{
    ClientAction, RelayServer, RelayState, UpstreamAction, batch_client_decision,
    batch_upstream_decision,
};
use crate::relay::session_manager::{SessionLimits, bursts_fit};
use crate::wire::PacketHeader;
use vstd::prelude::*;

verus! {

/// A packet in the queue: its bytes and where they go.
pub type Queued = (Seq<u8>, SocketAddr);

/// What is queued.
pub open spec fn content(queue: Seq<QueuedPacket>) -> Seq<Queued> {
    queue.map_values(|p: QueuedPacket| (p.data@, p.addr))
}

/// The bytes of a received packet, as far as its buffer goes.
pub open spec fn bytes_of(p: ReceivedPacket) -> Seq<u8> {
    p.buffer@.take(at_most(p.reported_len, p.buffer@.len() as usize) as int)
}

/// The queue with one more packet, cut to the size of a buffer, if there is room for it.
pub open spec fn enqueued(
    queue: Seq<Queued>,
    capacity: (usize, usize),
    data: Seq<u8>,
    addr: SocketAddr,
) -> Seq<Queued> {
    if queue.len() < capacity.0 {
        queue.push((data.take(at_most(data.len() as usize, capacity.1) as int), addr))
    } else {
        queue
    }
}

/// The relay and a queue.
#[verifier::ext_equal]
pub struct Plane {
    pub relay: RelayState,
    pub queue: Seq<Queued>,
}

/// After a client's packet: what may pass is queued for the upstream.
pub open spec fn after_client_packet(
    s: Plane,
    l: SessionLimits,
    capacity: (usize, usize),
    upstream: SocketAddr,
    p: ReceivedPacket,
    header: Option<PacketHeader>,
    now_ns: u128,
) -> Plane {
    let data = bytes_of(p);
    let d = batch_client_decision(s.relay, l, header, p.source, data.len() as usize, now_ns);
    Plane {
        relay: d.1,
        queue: if d.0 is Forward {
            enqueued(s.queue, capacity, data, upstream)
        } else {
            s.queue
        },
    }
}

/// After an upstream packet: what may pass is queued for its client.
pub open spec fn after_upstream_packet(
    s: Plane,
    l: SessionLimits,
    capacity: (usize, usize),
    p: ReceivedPacket,
    header: Option<PacketHeader>,
    now_ns: u128,
) -> Plane {
    let data = bytes_of(p);
    let d = batch_upstream_decision(s.relay, l, header, data.len() as usize, now_ns);
    Plane {
        relay: d.1,
        queue: match d.0 {
            UpstreamAction::Return(addr) => enqueued(s.queue, capacity, data, addr),
            _ => s.queue,
        },
    }
}

fn enqueue(queue: &mut SendBatch, data: &[u8], addr: SocketAddr)
    requires
        old(queue).wf(),
    ensures
        final(queue).wf(),
        final(queue).capacity() == old(queue).capacity(),
        content(final(queue).queued()) == enqueued(
            content(old(queue).queued()),
            old(queue).capacity(),
            data@,
            addr,
        ),
{
    let added = queue.add(data, addr);
    proof {
        let before = content(old(queue).queued());
        let after = content(queue.queued());
        if added {
            assert(after.drop_last() =~= content(queue.queued().drop_last()));
            assert(after =~= after.drop_last().push(after.last()));
        }
        assert(after =~= enqueued(before, old(queue).capacity(), data@, addr));
    }
}

impl RelayServer {
    /// Decides on the client's packet at `index` of a batch and queues it if it may pass. Returns
    /// whether the queue is to be sent.
    pub fn queue_client_packet_at(
        &mut self,
        received: &RecvBatch,
        index: usize,
        header: Option<PacketHeader>,
        queue: &mut SendBatch,
        now_ns: u128,
    ) -> (flush: bool)
        requires
            old(self).wf(),
            bursts_fit(old(self).state().table, old(self).settings()),
            index < received.received().len(),
            old(queue).wf(),
        ensures
            final(self).wf(),
            final(self).same_setup(*old(self)),
            final(queue).wf(),
            final(queue).capacity() == old(queue).capacity(),
            (Plane { relay: final(self).state(), queue: content(final(queue).queued()) })
                == after_client_packet(
                (Plane { relay: old(self).state(), queue: content(old(queue).queued()) }),
                old(self).settings(),
                old(queue).capacity(),
                old(self).configuration().upstream_addr,
                received.received()[index as int],
                header,
                now_ns,
            ),
            flush == (final(queue).queued().len() >= final(queue).capacity().0),
    {
        let upstream = self.config().upstream_addr;
        let (data, source) = received.get(index);
        match self.batch_client_packet_at(header, source, data.len(), now_ns) {
            ClientAction::Forward => {
                enqueue(queue, data, upstream);
            },
            _ => {},
        }
        queue.is_full()
    }

    /// Decides on the upstream packet at `index` of a batch and queues it if it may pass. Returns
    /// whether the queue is to be sent.
    pub fn queue_upstream_packet_at(
        &mut self,
        received: &RecvBatch,
        index: usize,
        header: Option<PacketHeader>,
        queue: &mut SendBatch,
        now_ns: u128,
    ) -> (flush: bool)
        requires
            old(self).wf(),
            bursts_fit(old(self).state().table, old(self).settings()),
            index < received.received().len(),
            old(queue).wf(),
        ensures
            final(self).wf(),
            final(self).same_setup(*old(self)),
            final(queue).wf(),
            final(queue).capacity() == old(queue).capacity(),
            (Plane { relay: final(self).state(), queue: content(final(queue).queued()) })
                == after_upstream_packet(
                (Plane { relay: old(self).state(), queue: content(old(queue).queued()) }),
                old(self).settings(),
                old(queue).capacity(),
                received.received()[index as int],
                header,
                now_ns,
            ),
            flush == (final(queue).queued().len() >= final(queue).capacity().0),
    {
        let (data, _) = received.get(index);
        match self.batch_upstream_packet_at(header, data.len(), now_ns) {
            UpstreamAction::Return(addr) => {
                enqueue(queue, data, addr);
            },
            _ => {},
        }
        queue.is_full()
    }
}

/// What is counted as forwarded or returned is queued, provided that a full queue is sent before
/// the next packet; nothing else is.
pub proof fn law_what_passes_is_queued(
    s: Plane,
    l: SessionLimits,
    capacity: (usize, usize),
    upstream: SocketAddr,
    p: ReceivedPacket,
    header: Option<PacketHeader>,
    now_ns: u128,
)
    requires
        s.queue.len() < capacity.0,
    ensures
        batch_client_decision(s.relay, l, header, p.source, bytes_of(p).len() as usize, now_ns).0
            is Forward <==> after_client_packet(
            s,
            l,
            capacity,
            upstream,
            p,
            header,
            now_ns,
        ).queue.len() == s.queue.len() + 1,
        batch_upstream_decision(s.relay, l, header, bytes_of(p).len() as usize, now_ns).0 is Return
            <==> after_upstream_packet(s, l, capacity, p, header, now_ns).queue.len()
            == s.queue.len() + 1,
{
}

/// Queued packets stay as they are and in their order while others come.
pub proof fn law_queued_packets_stay(
    s: Plane,
    l: SessionLimits,
    capacity: (usize, usize),
    upstream: SocketAddr,
    p: ReceivedPacket,
    header: Option<PacketHeader>,
    now_ns: u128,
)
    ensures
        after_client_packet(s, l, capacity, upstream, p, header, now_ns).queue.take(
            s.queue.len() as int,
        ) == s.queue,
        after_upstream_packet(s, l, capacity, p, header, now_ns).queue.take(s.queue.len() as int)
            == s.queue,
{
    assert(after_client_packet(s, l, capacity, upstream, p, header, now_ns).queue.take(
        s.queue.len() as int,
    ) =~= s.queue);
    assert(after_upstream_packet(s, l, capacity, p, header, now_ns).queue.take(
        s.queue.len() as int,
    ) =~= s.queue);
}

/// What is queued is the packet as it came, as far as a buffer goes, and nothing else: from a
/// client for the upstream, from the upstream for the client of the session that its header names.
pub proof fn law_packets_are_queued_as_they_came(
    s: Plane,
    l: SessionLimits,
    capacity: (usize, usize),
    upstream: SocketAddr,
    p: ReceivedPacket,
    header: Option<PacketHeader>,
    now_ns: u128,
)
    requires
        p.reported_len <= p.buffer@.len(),
        p.reported_len <= capacity.1,
        s.queue.len() < capacity.0,
        p.buffer@.len() <= usize::MAX,
    ensures
        ({
            let q = after_client_packet(s, l, capacity, upstream, p, header, now_ns).queue;
            q.len() > s.queue.len() ==> q.last() == (p.buffer@.take(p.reported_len as int), upstream)
        }),
        ({
            let q = after_upstream_packet(s, l, capacity, p, header, now_ns).queue;
            q.len() > s.queue.len() ==> header is Some && s.relay.table.contains_key(
                header->0.session_id.0,
            ) && q.last() == (
                p.buffer@.take(p.reported_len as int),
                s.relay.table[header->0.session_id.0].client_addr,
            )
        }),
{
    let data = bytes_of(p);
    assert(data =~= p.buffer@.take(p.reported_len as int));
    assert(data.take(data.len() as int) =~= data);
}

} // verus!
