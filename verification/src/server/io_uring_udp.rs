//! Bookkeeping of UDP I/O through a submission and a completion ring.
//!
//! Receive buffers and send slots have numbers. A number goes out with a submitted operation and
//! comes back with its completion; until then the buffer or slot belongs to the system.

use crate::net::SocketAddr;
use crate::relay::metrics::bumped;
use crate::text::{decimal, push_decimal};
use std::collections::VecDeque;
use vstd::prelude::*;

verus! {

/// Default ring size (number of submission entries).
pub const DEFAULT_RING_SIZE: u32 = 256;

/// Maximum batch size for submissions.
pub const MAX_BATCH_SIZE: usize = 64;

/// Maximum packet size.
pub const MAX_PACKET_SIZE: usize = 65535;

/// Number of receive buffers.
pub const NUM_BUFFERS: usize = 256;

/// Protocol level of UDP control messages.
pub const LEVEL_UDP: i32 = 17;

/// Kind of the control message that says how packets were coalesced.
pub const UDP_GRO: i32 = 104;

/// Mark of a receive operation.
pub const OP_RECV: u64 = 1;

/// Mark of a send operation.
pub const OP_SEND: u64 = 2;

/// A received packet with metadata.
#[derive(Debug)]
pub struct ReceivedPacket {
    /// Packet data (may contain multiple coalesced packets).
    pub data: Vec<u8>,
    /// Source address.
    pub addr: SocketAddr,
    /// Segment size of coalesced packets; zero for a single packet.
    pub gso_size: u16,
}

/// A packet on its way out.
#[derive(Debug)]
pub struct SendBuffer {
    /// Packet data.
    pub data: Vec<u8>,
    /// Destination.
    pub addr: SocketAddr,
}

/// A control message that came with a packet.
#[derive(Debug, Clone, Copy)]
pub struct ControlMessage {
    /// Protocol level.
    pub level: i32,
    /// Kind within the level.
    pub kind: i32,
    /// The number that it holds, if it holds one.
    pub value: Option<u16>,
}

/// A completed operation.
#[derive(Debug)]
pub struct Completion {
    /// What the operation was submitted with.
    pub user_data: u64,
    /// Number of bytes, or a negative error number.
    pub result: i32,
    /// What was received, if its source address is of a known family.
    pub packet: Option<ReceivedPacket>,
}

/// io_uring statistics.
#[derive(Debug, Clone, Copy)]
pub struct IoUringStats {
    /// Total packets received.
    pub packets_received: u64,
    /// Total packets sent.
    pub packets_sent: u64,
    /// Receive errors.
    pub recv_errors: u64,
    /// Send errors.
    pub send_errors: u64,
    /// Pending receive operations.
    pub pending_recvs: usize,
    /// Pending send operations.
    pub pending_sends: usize,
    /// Free buffers available.
    pub free_buffers: usize,
}

/// Get io_uring kernel version requirements.
pub fn io_uring_requirements() -> (s: &'static str)
    ensures
        s@ == "Linux kernel >= 5.6 for full UDP support, >= 5.1 for basic io_uring"@,
{
    "Linux kernel >= 5.6 for full UDP support, >= 5.1 for basic io_uring"
}

/// What an operation on buffer or slot `idx` is submitted with: the mark in the lower half, the
/// number in the upper.
pub open spec fn user_data_of(op: u64, idx: usize) -> int {
    op + (idx as int % 0x1_0000_0000) * 0x1_0000_0000
}

/// Encodes the mark and the number of an operation.
pub fn encode_user_data(op: u64, idx: usize) -> (u: u64)
    requires
        op < 0x1_0000_0000,
    ensures
        u == user_data_of(op, idx),
{
    let i: u64 = (idx as u64) % 0x1_0000_0000;
    op + i * 0x1_0000_0000
}

/// The mark that an operation was submitted with.
pub open spec fn op_of(user_data: u64) -> u64 {
    user_data % 0x1_0000_0000
}

/// The number that an operation was submitted with.
pub open spec fn idx_of(user_data: u64) -> usize {
    (user_data / 0x1_0000_0000) as usize
}

/// Decodes the mark and the number of an operation.
pub fn decode_user_data(user_data: u64) -> (r: (u64, usize))
    ensures
        r.0 == op_of(user_data),
        r.1 == idx_of(user_data),
{
    (user_data % 0x1_0000_0000, (user_data / 0x1_0000_0000) as usize)
}

/// What goes out with an operation comes back with its completion.
pub proof fn law_user_data_round_trip(op: u64, idx: usize)
    requires
        op < 0x1_0000_0000,
        idx < 0x1_0000_0000,
    ensures
        user_data_of(op, idx) <= u64::MAX,
        op_of(user_data_of(op, idx) as u64) == op,
        idx_of(user_data_of(op, idx) as u64) == idx,
{
}

/// The segment size that control messages say; zero when none does.
pub open spec fn gso_of(messages: Seq<ControlMessage>) -> u16
    decreases messages.len(),
{
    if messages.len() == 0 {
        0
    } else {
        let m = messages.first();
        if m.level == LEVEL_UDP && m.kind == UDP_GRO && m.value is Some {
            m.value->0
        } else {
            gso_of(messages.drop_first())
        }
    }
}

/// The segment size of coalesced packets by the control messages that came with them.
pub fn gso_size(messages: &Vec<ControlMessage>) -> (n: u16)
    ensures
        n == gso_of(messages@),
{
    let mut i: usize = 0;
    proof {
        assert(messages@.skip(0) =~= messages@);
    }
    while i < messages.len()
        invariant
            i <= messages@.len(),
            gso_of(messages@) == gso_of(messages@.skip(i as int)),
        decreases messages@.len() - i,
    {
        proof {
            assert(messages@.skip(i as int).drop_first() =~= messages@.skip(i + 1));
        }
        let m = messages[i];
        if m.level == LEVEL_UDP && m.kind == UDP_GRO {
            if let Some(n) = m.value {
                return n;
            }
        }
        i += 1;
    }
    0
}

/// Where `x` first occurs, the length when it does not.
pub open spec fn position(s: Seq<usize>, x: usize) -> int
    decreases s.len(),
{
    if s.len() == 0 || s.first() == x {
        0
    } else {
        1 + position(s.drop_first(), x)
    }
}

/// The list without the first `x`, in whose place the last entry moves.
pub open spec fn swap_removed(s: Seq<usize>, x: usize) -> Seq<usize> {
    let i = position(s, x);
    if i < s.len() {
        s.update(i, s.last()).drop_last()
    } else {
        s
    }
}

/// Which receive buffers are free and which are with the system, and the counters.
#[verifier::ext_equal]
pub struct RingView {
    pub free: Seq<usize>,
    pub pending: Seq<usize>,
    pub received: u64,
    pub sent: u64,
    pub recv_errors: u64,
    pub send_errors: u64,
}

/// The state after a completion.
pub open spec fn completed(v: RingView, c: Completion) -> RingView {
    let idx = idx_of(c.user_data);
    if op_of(c.user_data) == OP_RECV {
        let good = c.result >= 0 && c.packet is Some;
        RingView {
            free: v.free.push(idx),
            pending: swap_removed(v.pending, idx),
            received: if good {
                bumped(v.received, 1)
            } else {
                v.received
            },
            recv_errors: if good {
                v.recv_errors
            } else {
                bumped(v.recv_errors, 1)
            },
            ..v
        }
    } else if op_of(c.user_data) == OP_SEND {
        if c.result >= 0 {
            RingView { sent: bumped(v.sent, 1), ..v }
        } else {
            RingView { send_errors: bumped(v.send_errors, 1), ..v }
        }
    } else {
        v
    }
}

/// The state after several completions.
pub open spec fn all_completed(v: RingView, cs: Seq<Completion>) -> RingView
    decreases cs.len(),
{
    if cs.len() == 0 {
        v
    } else {
        completed(all_completed(v, cs.drop_last()), cs.last())
    }
}

/// The packet that a completion delivers.
pub open spec fn delivered(c: Completion) -> Option<ReceivedPacket> {
    if op_of(c.user_data) == OP_RECV && c.result >= 0 {
        c.packet
    } else {
        None
    }
}

/// The packets that completions deliver, in order.
pub open spec fn all_delivered(cs: Seq<Completion>) -> Seq<ReceivedPacket>
    decreases cs.len(),
{
    if cs.len() == 0 {
        Seq::empty()
    } else {
        match delivered(cs.last()) {
            Some(p) => all_delivered(cs.drop_last()).push(p),
            None => all_delivered(cs.drop_last()),
        }
    }
}

/// Whether the send in slot `idx` is among the completed operations.
pub open spec fn send_done(cs: Seq<Completion>, idx: usize) -> bool {
    exists|i: int|
        0 <= i < cs.len() && op_of((#[trigger] cs[i]).user_data) == OP_SEND && idx_of(
            cs[i].user_data,
        ) == idx
}

/// The slots below `n` that completions empty, the highest first.
pub open spec fn freed(slots: Seq<Option<SendBuffer>>, cs: Seq<Completion>, n: int) -> Seq<usize>
    decreases n,
{
    if n <= 0 {
        Seq::empty()
    } else if slots[n - 1] is Some && send_done(cs, (n - 1) as usize) {
        seq![(n - 1) as usize] + freed(slots, cs, n - 1)
    } else {
        freed(slots, cs, n - 1)
    }
}

/// The slots after completions.
pub open spec fn emptied(slots: Seq<Option<SendBuffer>>, cs: Seq<Completion>) -> Seq<
    Option<SendBuffer>,
> {
    Seq::new(
        slots.len(),
        |i: int|
            if send_done(cs, i as usize) {
                None
            } else {
                slots[i]
            },
    )
}

/// Number of slots that are taken.
pub open spec fn taken(slots: Seq<Option<SendBuffer>>) -> nat
    decreases slots.len(),
{
    if slots.len() == 0 {
        0
    } else {
        taken(slots.drop_last()) + if slots.last() is Some {
            1nat
        } else {
            0nat
        }
    }
}

/// Why a send was not queued.
#[derive(Debug)]
pub enum SendRefused {
    /// All slots are taken.
    WouldBlock(String),
}

/// Bookkeeping of a UDP socket behind a ring.
pub struct IoUringUdp {
    /// Free buffer indices.
    pub free_buffers: VecDeque<usize>,
    /// Pending receive operations (buffer indices).
    pub pending_recv_indices: Vec<usize>,
    /// Send slots; a taken one is freed on completion.
    pub pending_sends: Vec<Option<SendBuffer>>,
    /// Vacant indices in `pending_sends`.
    pub free_send_indices: Vec<usize>,
    /// Maximum number of in-flight send operations.
    pub max_pending_sends: usize,
    /// Next send ID.
    pub next_send_id: u64,
    /// Packets received.
    pub stats_received: u64,
    /// Packets sent.
    pub stats_sent: u64,
    /// Receive errors.
    pub stats_recv_errors: u64,
    /// Send errors.
    pub stats_send_errors: u64,
    /// Shutdown flag.
    pub shutdown: bool,
}

/// Whether every receive buffer is either free or with the system, exactly once.
pub open spec fn buffers_sound(v: RingView) -> bool {
    &&& (v.free + v.pending).no_duplicates()
    &&& (v.free + v.pending).len() == NUM_BUFFERS
    &&& forall|i: int| 0 <= i < v.free.len() ==> #[trigger] v.free[i] < NUM_BUFFERS
    &&& forall|i: int| 0 <= i < v.pending.len() ==> #[trigger] v.pending[i] < NUM_BUFFERS
}

/// Whether the vacant slots are those listed, each once.
pub open spec fn slots_sound(slots: Seq<Option<SendBuffer>>, vacant: Seq<usize>) -> bool {
    &&& vacant.no_duplicates()
    &&& forall|i: int| 0 <= i < vacant.len() ==> #[trigger] vacant[i] < slots.len()
    &&& forall|i: int| 0 <= i < slots.len() ==> (#[trigger] slots[i] is None <==> vacant.contains(
        i as usize,
    ))
}

impl IoUringUdp {
    /// Buffers and counters.
    pub open spec fn ring(self) -> RingView {
        RingView {
            free: self.free_buffers@,
            pending: self.pending_recv_indices@,
            received: self.stats_received,
            sent: self.stats_sent,
            recv_errors: self.stats_recv_errors,
            send_errors: self.stats_send_errors,
        }
    }

    /// Bookkeeping for a ring of this size, with all buffers and slots free.
    pub fn new(ring_size: u32) -> (u: IoUringUdp)
        ensures
            u.ring() == (RingView {
                free: Seq::new(NUM_BUFFERS as nat, |i: int| i as usize),
                pending: Seq::empty(),
                received: 0,
                sent: 0,
                recv_errors: 0,
                send_errors: 0,
            }),
            u.pending_sends@ == Seq::new(ring_size as nat, |i: int| None::<SendBuffer>),
            u.free_send_indices@ == Seq::new(
                ring_size as nat,
                |i: int| (ring_size - 1 - i) as usize,
            ),
            u.max_pending_sends == ring_size,
            u.next_send_id == 0,
            !u.shutdown,
            buffers_sound(u.ring()),
            slots_sound(u.pending_sends@, u.free_send_indices@),
    {
        let mut free: VecDeque<usize> = VecDeque::new();
        let mut i: usize = 0;
        while i < NUM_BUFFERS
            invariant
                i <= NUM_BUFFERS,
                free@ == Seq::new(i as nat, |k: int| k as usize),
            decreases NUM_BUFFERS - i,
        {
            free.push_back(i);
            proof {
                assert(free@ =~= Seq::new((i + 1) as nat, |k: int| k as usize));
            }
            i += 1;
        }
        let mut slots: Vec<Option<SendBuffer>> = Vec::new();
        let mut vacant: Vec<usize> = Vec::new();
        let n: usize = ring_size as usize;
        let mut j: usize = 0;
        while j < n
            invariant
                j <= n,
                n == ring_size,
                slots@ == Seq::new(j as nat, |k: int| None::<SendBuffer>),
                vacant@ == Seq::new(j as nat, |k: int| (ring_size - 1 - k) as usize),
            decreases n - j,
        {
            slots.push(None);
            vacant.push(n - 1 - j);
            proof {
                assert(slots@ =~= Seq::new((j + 1) as nat, |k: int| None::<SendBuffer>));
                assert(vacant@ =~= Seq::new((j + 1) as nat, |k: int| (ring_size - 1 - k) as usize));
            }
            j += 1;
        }
        proof {
            assert(free@ + Seq::<usize>::empty() =~= free@);
            assert forall|k: int| 0 <= k < slots@.len() implies (#[trigger] slots@[k] is None
                <==> vacant@.contains(k as usize)) by {
                assert(vacant@[ring_size - 1 - k] == k as usize);
            }
        }
        IoUringUdp {
            free_buffers: free,
            pending_recv_indices: Vec::new(),
            pending_sends: slots,
            free_send_indices: vacant,
            max_pending_sends: n,
            next_send_id: 0,
            stats_received: 0,
            stats_sent: 0,
            stats_recv_errors: 0,
            stats_send_errors: 0,
            shutdown: false,
        }
    }

    /// Bookkeeping for a ring of the default size.
    pub fn with_defaults() -> (u: IoUringUdp)
        ensures
            u.ring() == (RingView {
                free: Seq::new(NUM_BUFFERS as nat, |i: int| i as usize),
                pending: Seq::empty(),
                received: 0,
                sent: 0,
                recv_errors: 0,
                send_errors: 0,
            }),
            u.pending_sends@ == Seq::new(DEFAULT_RING_SIZE as nat, |i: int| None::<SendBuffer>),
            u.free_send_indices@ == Seq::new(
                DEFAULT_RING_SIZE as nat,
                |i: int| (DEFAULT_RING_SIZE - 1 - i) as usize,
            ),
            u.max_pending_sends == DEFAULT_RING_SIZE,
            u.next_send_id == 0,
            !u.shutdown,
            buffers_sound(u.ring()),
            slots_sound(u.pending_sends@, u.free_send_indices@),
    {
        IoUringUdp::new(DEFAULT_RING_SIZE)
    }

    /// The buffer to submit the next receive operation with, `None` when none is free.
    pub fn next_recv(&self) -> (r: Option<usize>)
        ensures
            r == (if self.free_buffers@.len() > 0 {
                Some(self.free_buffers@[0])
            } else {
                None
            }),
    {
        if self.free_buffers.len() > 0 {
            Some(self.free_buffers[0])
        } else {
            None
        }
    }

    /// Takes in that a receive operation was submitted with the next free buffer.
    pub fn recv_submitted(&mut self)
        requires
            old(self).free_buffers@.len() > 0,
        ensures
            final(self).ring() == (RingView {
                free: old(self).free_buffers@.drop_first(),
                pending: old(self).pending_recv_indices@.push(old(self).free_buffers@[0]),
                ..old(self).ring()
            }),
            final(self).pending_sends == old(self).pending_sends,
            final(self).free_send_indices == old(self).free_send_indices,
            final(self).max_pending_sends == old(self).max_pending_sends,
            final(self).next_send_id == old(self).next_send_id,
            final(self).shutdown == old(self).shutdown,
            buffers_sound(old(self).ring()) ==> buffers_sound(final(self).ring()),
    {
        let ghost before = self.ring();
        if let Some(idx) = self.free_buffers.pop_front() {
            self.pending_recv_indices.push(idx);
        }
        proof {
            let after = RingView {
                free: before.free.drop_first(),
                pending: before.pending.push(before.free[0]),
                ..before
            };
            assert(self.ring() =~= after);
            if buffers_sound(before) {
                lemma_moved(before.free, before.pending);
            }
        }
    }

    /// Takes a slot for a packet. The slot goes with the send operation; it is refused when all
    /// are taken.
    pub fn queue_send(&mut self, data: Vec<u8>, addr: SocketAddr) -> (r: Result<usize, SendRefused>)
        requires
            slots_sound(old(self).pending_sends@, old(self).free_send_indices@),
        ensures
            final(self).ring() == old(self).ring(),
            final(self).max_pending_sends == old(self).max_pending_sends,
            final(self).shutdown == old(self).shutdown,
            final(self).next_send_id == bumped(old(self).next_send_id, 1),
            slots_sound(final(self).pending_sends@, final(self).free_send_indices@),
            match r {
                Ok(idx) => old(self).free_send_indices@.len() > 0 && idx == old(self).free_send_indices@.last() && final(self).free_send_indices@ == old(self).free_send_indices@.drop_last() && final(self).pending_sends@ == old(self).pending_sends@.update(idx as int, Some(SendBuffer { data, addr })),
                Err(SendRefused::WouldBlock(m)) => old(self).free_send_indices@.len() == 0 && final(self).free_send_indices@ == old(self).free_send_indices@ && final(self).pending_sends@
                    == old(self).pending_sends@ && m@ == "too many in-flight io_uring sends (max "@
                    + decimal(old(self).max_pending_sends as nat) + ")"@,
            },
    {
        self.next_send_id = self.next_send_id.wrapping_add(1);
        match self.free_send_indices.pop() {
            None => {
                let mut m = String::from_str("too many in-flight io_uring sends (max ");
                push_decimal(&mut m, self.max_pending_sends as u64);
                m.append(")");
                Err(SendRefused::WouldBlock(m))
            },
            Some(idx) => {
                let ghost vacant = old(self).free_send_indices@;
                let ghost slots = self.pending_sends@;
                let count: usize = self.pending_sends.len();
                proof {
                    assert(slots.len() == count);
                    assert(vacant[vacant.len() - 1] == idx);
                }
                self.pending_sends.set(idx, Some(SendBuffer { data, addr }));
                proof {
                    let left = vacant.drop_last();
                    assert(self.free_send_indices@ =~= left);
                    assert forall|i: int| 0 <= i < slots.len() implies (
                    #[trigger] self.pending_sends@[i] is None <==> left.contains(i as usize)) by {
                        if i == idx as int {
                            if left.contains(idx) {
                                let k = choose|k: int| 0 <= k < left.len() && left[k] == idx;
                                assert(vacant[k] == vacant[vacant.len() - 1]);
                            }
                        } else {
                            assert(slots[i] is None <==> vacant.contains(i as usize));
                            if vacant.contains(i as usize) {
                                let k = choose|k: int| 0 <= k < vacant.len() && vacant[k] == i as usize;
                                assert(left[k] == i as usize);
                            }
                            if left.contains(i as usize) {
                                let k = choose|k: int| 0 <= k < left.len() && left[k] == i as usize;
                                assert(vacant[k] == i as usize);
                            }
                        }
                    }
                }
                Ok(idx)
            },
        }
    }

    /// Takes in completed operations and returns the packets that they delivered, in order. The
    /// slots of completed sends become vacant, the lowest to be taken first.
    pub fn process_completions(&mut self, completions: Vec<Completion>) -> (received: Vec<
        ReceivedPacket,
    >)
        ensures
            received@ == all_delivered(completions@),
            final(self).ring() == all_completed(old(self).ring(), completions@),
            final(self).pending_sends@ == emptied(old(self).pending_sends@, completions@),
            final(self).free_send_indices@ == old(self).free_send_indices@ + freed(
                old(self).pending_sends@,
                completions@,
                old(self).pending_sends@.len() as int,
            ),
            final(self).max_pending_sends == old(self).max_pending_sends,
            final(self).next_send_id == old(self).next_send_id,
            final(self).shutdown == old(self).shutdown,
            slots_sound(old(self).pending_sends@, old(self).free_send_indices@) ==> slots_sound(
                final(self).pending_sends@,
                final(self).free_send_indices@,
            ),
    {
        let ghost cs = completions@;
        let ghost slots = self.pending_sends@;
        let ghost vacant = self.free_send_indices@;
        let mut received: Vec<ReceivedPacket> = Vec::new();
        let mut done: Vec<usize> = Vec::new();
        let mut rest: Vec<Completion> = completions;
        let mut queue: VecDeque<Completion> = VecDeque::new();
        while rest.len() > 0
            invariant
                rest@ + queue@ == cs,
            decreases rest@.len(),
        {
            let ghost before = rest@ + queue@;
            if let Some(c) = rest.pop() {
                queue.push_front(c);
            }
            proof {
                assert(rest@ + queue@ =~= before);
            }
        }
        let ghost mut i: int = 0;
        proof {
            assert(queue@ =~= cs);
            assert(cs.skip(0) =~= cs);
            assert(cs.take(0) =~= Seq::empty());
        }
        while queue.len() > 0
            invariant
                0 <= i <= cs.len(),
                queue@ == cs.skip(i),
                received@ == all_delivered(cs.take(i)),
                self.ring() == all_completed(old(self).ring(), cs.take(i)),
                self.pending_sends@ == slots,
                self.free_send_indices@ == vacant,
                self.max_pending_sends == old(self).max_pending_sends,
                self.next_send_id == old(self).next_send_id,
                self.shutdown == old(self).shutdown,
                forall|x: usize| done@.contains(x) <==> #[trigger] send_done(cs.take(i), x),
            decreases queue@.len(),
        {
            let ghost before = self.ring();
            let ghost done_before = done@;
            if let Some(c) = queue.pop_front() {
                let ghost c0 = c;
                proof {
                    assert(cs.skip(i)[0] == cs[i]);
                    assert(cs.take(i + 1).drop_last() =~= cs.take(i));
                    assert(cs.take(i + 1).last() == c);
                    assert(queue@ =~= cs.skip(i + 1));
                }
                let (op, idx) = decode_user_data(c.user_data);
                if op == OP_RECV {
                    self.forget_pending(idx);
                    if c.result >= 0 {
                        match c.packet {
                            Some(p) => {
                                received.push(p);
                                self.stats_received = self.stats_received.wrapping_add(1);
                            },
                            None => {
                                self.stats_recv_errors = self.stats_recv_errors.wrapping_add(1);
                            },
                        }
                    } else {
                        self.stats_recv_errors = self.stats_recv_errors.wrapping_add(1);
                    }
                    self.free_buffers.push_back(idx);
                } else if op == OP_SEND {
                    if c.result >= 0 {
                        self.stats_sent = self.stats_sent.wrapping_add(1);
                    } else {
                        self.stats_send_errors = self.stats_send_errors.wrapping_add(1);
                    }
                    done.push(idx);
                }
                proof {
                    assert(self.ring() =~= completed(before, c0));
                    assert forall|x: usize| done@.contains(x) <==> #[trigger] send_done(
                        cs.take(i + 1),
                        x,
                    ) by {
                        lemma_one_more(cs, i, x);
                        assert(done_before.contains(x) <==> send_done(cs.take(i), x));
                        if op == OP_SEND {
                            lemma_push_contains(done_before, idx, x);
                        }
                    }
                    i = i + 1;
                }
            }
        }
        proof {
            assert(cs.take(cs.len() as int) =~= cs);
            assert(i == cs.len());
        }
        self.empty_slots(&done, Ghost(cs));
        received
    }

    fn forget_pending(&mut self, idx: usize)
        ensures
            *final(self) == (IoUringUdp {
                pending_recv_indices: final(self).pending_recv_indices,
                ..*old(self)
            }),
            final(self).pending_recv_indices@ == swap_removed(
                old(self).pending_recv_indices@,
                idx,
            ),
    {
        let ghost s = self.pending_recv_indices@;
        let mut i: usize = 0;
        proof {
            assert(s.skip(0) =~= s);
        }
        while i < self.pending_recv_indices.len()
            invariant
                *self == *old(self),
                s == self.pending_recv_indices@,
                i <= s.len(),
                position(s, idx) == i + position(s.skip(i as int), idx),
            decreases s.len() - i,
        {
            proof {
                assert(s.skip(i as int).drop_first() =~= s.skip(i + 1));
            }
            if self.pending_recv_indices[i] == idx {
                let _ = self.pending_recv_indices.swap_remove(i);
                return;
            }
            i += 1;
        }
    }

    fn empty_slots(&mut self, done: &Vec<usize>, cs: Ghost<Seq<Completion>>)
        requires
            forall|x: usize| done@.contains(x) <==> #[trigger] send_done(cs@, x),
        ensures
            *final(self) == (IoUringUdp {
                pending_sends: final(self).pending_sends,
                free_send_indices: final(self).free_send_indices,
                ..*old(self)
            }),
            final(self).pending_sends@ == emptied(old(self).pending_sends@, cs@),
            final(self).free_send_indices@ == old(self).free_send_indices@ + freed(
                old(self).pending_sends@,
                cs@,
                old(self).pending_sends@.len() as int,
            ),
            slots_sound(old(self).pending_sends@, old(self).free_send_indices@) ==> slots_sound(
                final(self).pending_sends@,
                final(self).free_send_indices@,
            ),
    {
        let ghost slots = self.pending_sends@;
        let ghost vacant = self.free_send_indices@;
        let n: usize = self.pending_sends.len();
        let mut i: usize = n;
        while i > 0
            invariant
                i <= n,
                n == slots.len(),
                self.pending_sends@.len() == n,
                slots == old(self).pending_sends@,
                vacant == old(self).free_send_indices@,
                *self == (IoUringUdp {
                    pending_sends: self.pending_sends,
                    free_send_indices: self.free_send_indices,
                    ..*old(self)
                }),
                forall|x: usize| done@.contains(x) <==> #[trigger] send_done(cs@, x),
                forall|k: int| 0 <= k < i ==> #[trigger] self.pending_sends@[k] == slots[k],
                forall|k: int|
                    i <= k < n ==> #[trigger] self.pending_sends@[k] == (if send_done(
                        cs@,
                        k as usize,
                    ) {
                        None
                    } else {
                        slots[k]
                    }),
                self.free_send_indices@ + freed(slots, cs@, i as int) == vacant + freed(
                    slots,
                    cs@,
                    n as int,
                ),
            decreases i,
        {
            let idx: usize = i - 1;
            let ghost vacant_before = self.free_send_indices@;
            if holds(done, idx) {
                let was_taken = self.pending_sends[idx].is_some();
                if was_taken {
                    self.pending_sends.set(idx, None);
                    self.free_send_indices.push(idx);
                    proof {
                        assert(self.free_send_indices@ + freed(slots, cs@, idx as int)
                            =~= vacant_before + freed(slots, cs@, i as int));
                    }
                }
            }
            i = idx;
        }
        proof {
            assert(self.pending_sends@ =~= emptied(slots, cs@));
            assert(self.free_send_indices@ =~= self.free_send_indices@ + freed(slots, cs@, 0));
            if slots_sound(slots, vacant) {
                lemma_slots_stay_sound(slots, vacant, cs@);
            }
        }
    }

    /// Get statistics.
    pub fn stats(&self) -> (s: IoUringStats)
        ensures
            s == (IoUringStats {
                packets_received: self.stats_received,
                packets_sent: self.stats_sent,
                recv_errors: self.stats_recv_errors,
                send_errors: self.stats_send_errors,
                pending_recvs: self.pending_recv_indices@.len() as usize,
                pending_sends: taken(self.pending_sends@) as usize,
                free_buffers: self.free_buffers@.len() as usize,
            }),
            taken(self.pending_sends@) <= self.pending_sends@.len(),
    {
        let mut count: usize = 0;
        let mut i: usize = 0;
        let ghost slots = self.pending_sends@;
        proof {
            assert(slots.take(0) =~= Seq::empty());
        }
        while i < self.pending_sends.len()
            invariant
                slots == self.pending_sends@,
                i <= slots.len(),
                count <= i,
                count == taken(slots.take(i as int)),
            decreases slots.len() - i,
        {
            proof {
                assert(slots.take(i + 1).drop_last() =~= slots.take(i as int));
            }
            if self.pending_sends[i].is_some() {
                count += 1;
            }
            i += 1;
        }
        proof {
            assert(slots.take(slots.len() as int) =~= slots);
        }
        IoUringStats {
            packets_received: self.stats_received,
            packets_sent: self.stats_sent,
            recv_errors: self.stats_recv_errors,
            send_errors: self.stats_send_errors,
            pending_recvs: self.pending_recv_indices.len(),
            pending_sends: count,
            free_buffers: self.free_buffers.len(),
        }
    }

    /// Shutdown the handler.
    pub fn shutdown(&mut self)
        ensures
            *final(self) == (IoUringUdp { shutdown: true, ..*old(self) }),
    {
        self.shutdown = true;
    }

    /// Check if shutdown.
    pub fn is_shutdown(&self) -> (b: bool)
        ensures
            b == self.shutdown,
    {
        self.shutdown
    }
}

fn holds(v: &Vec<usize>, x: usize) -> (b: bool)
    ensures
        b == v@.contains(x),
{
    let mut i: usize = 0;
    while i < v.len()
        invariant
            i <= v@.len(),
            forall|k: int| 0 <= k < i ==> v@[k] != x,
        decreases v@.len() - i,
    {
        if v[i] == x {
            return true;
        }
        i += 1;
    }
    false
}

proof fn lemma_one_more(cs: Seq<Completion>, i: int, x: usize)
    requires
        0 <= i < cs.len(),
    ensures
        send_done(cs.take(i + 1), x) <==> send_done(cs.take(i), x) || (op_of(cs[i].user_data)
            == OP_SEND && idx_of(cs[i].user_data) == x),
{
    let a = cs.take(i);
    let b = cs.take(i + 1);
    if send_done(a, x) {
        let k = choose|k: int|
            0 <= k < a.len() && op_of((#[trigger] a[k]).user_data) == OP_SEND && idx_of(
                a[k].user_data,
            ) == x;
        assert(b[k] == a[k]);
    }
    if send_done(b, x) {
        let k = choose|k: int|
            0 <= k < b.len() && op_of((#[trigger] b[k]).user_data) == OP_SEND && idx_of(
                b[k].user_data,
            ) == x;
        if k < i {
            assert(a[k] == b[k]);
        }
    }
    assert(b[i] == cs[i]);
}

proof fn lemma_push_contains(s: Seq<usize>, y: usize, x: usize)
    ensures
        s.push(y).contains(x) <==> s.contains(x) || x == y,
{
    if s.contains(x) {
        let k = choose|k: int| 0 <= k < s.len() && s[k] == x;
        assert(s.push(y)[k] == x);
    }
    assert(s.push(y)[s.len() as int] == y);
}

proof fn lemma_freed(slots: Seq<Option<SendBuffer>>, cs: Seq<Completion>, n: int)
    requires
        0 <= n <= slots.len(),
        slots.len() <= usize::MAX,
    ensures
        freed(slots, cs, n).no_duplicates(),
        forall|k: int| 0 <= k < freed(slots, cs, n).len() ==> #[trigger] freed(slots, cs, n)[k] < n,
        forall|x: usize|
            #[trigger] freed(slots, cs, n).contains(x) <==> x < n && slots[x as int] is Some
                && send_done(cs, x),
    decreases n,
{
    if n > 0 {
        lemma_freed(slots, cs, n - 1);
        let f = freed(slots, cs, n - 1);
        let y = (n - 1) as usize;
        let g = freed(slots, cs, n);
        if slots[n - 1] is Some && send_done(cs, y) {
            assert(g == seq![y] + f);
            assert(g[0] == y);
            assert forall|x: usize| #[trigger] g.contains(x) <==> x < n && slots[x as int] is Some
                && send_done(cs, x) by {
                if f.contains(x) {
                    let k = choose|k: int| 0 <= k < f.len() && f[k] == x;
                    assert(g[k + 1] == x);
                }
                if g.contains(x) && x != y {
                    let k = choose|k: int| 0 <= k < g.len() && g[k] == x;
                    assert(f[k - 1] == x);
                }
            }
            assert forall|k: int| 0 <= k < g.len() implies #[trigger] g[k] < n by {
                if k > 0 {
                    assert(g[k] == f[k - 1]);
                }
            }
            assert forall|a: int, b: int| 0 <= a < g.len() && 0 <= b < g.len() && a != b implies g[a]
                != g[b] by {
                if a > 0 && b > 0 {
                    assert(g[a] == f[a - 1] && g[b] == f[b - 1]);
                } else if a > 0 {
                    assert(g[a] == f[a - 1]);
                } else {
                    assert(g[b] == f[b - 1]);
                }
            }
        }
    }
}

proof fn lemma_slots_stay_sound(
    slots: Seq<Option<SendBuffer>>,
    vacant: Seq<usize>,
    cs: Seq<Completion>,
)
    requires
        slots_sound(slots, vacant),
        slots.len() <= usize::MAX,
    ensures
        slots_sound(emptied(slots, cs), vacant + freed(slots, cs, slots.len() as int)),
{
    let n = slots.len() as int;
    lemma_freed(slots, cs, n);
    let f = freed(slots, cs, n);
    let all = vacant + f;
    assert forall|a: int, b: int| 0 <= a < all.len() && 0 <= b < all.len() && a != b implies all[a]
        != all[b] by {
        if a < vacant.len() && b >= vacant.len() {
            assert(f.contains(f[b - vacant.len()]));
            assert(vacant.contains(vacant[a]));
        } else if b < vacant.len() && a >= vacant.len() {
            assert(f.contains(f[a - vacant.len()]));
            assert(vacant.contains(vacant[b]));
        }
    }
    assert forall|i: int| 0 <= i < n implies (#[trigger] emptied(slots, cs)[i] is None
        <==> all.contains(i as usize)) by {
        let x = i as usize;
        if vacant.contains(x) {
            let k = choose|k: int| 0 <= k < vacant.len() && vacant[k] == x;
            assert(all[k] == x);
        }
        if f.contains(x) {
            let k = choose|k: int| 0 <= k < f.len() && f[k] == x;
            assert(all[vacant.len() + k] == x);
        }
        if all.contains(x) {
            let k = choose|k: int| 0 <= k < all.len() && all[k] == x;
            if k < vacant.len() {
                assert(vacant[k] == x);
            } else {
                assert(f[k - vacant.len()] == x);
            }
        }
        assert(slots[i] is None <==> vacant.contains(x));
    }
}

proof fn lemma_moved(free: Seq<usize>, pending: Seq<usize>)
    requires
        (free + pending).no_duplicates(),
        free.len() > 0,
    ensures
        (free.drop_first() + pending.push(free[0])).no_duplicates(),
{
    let a = free + pending;
    let b = free.drop_first() + pending.push(free[0]);
    assert forall|i: int, j: int| 0 <= i < b.len() && 0 <= j < b.len() && i != j implies b[i]
        != b[j] by {
        let x: int = if i == b.len() - 1 {
            0
        } else {
            i + 1
        };
        let y: int = if j == b.len() - 1 {
            0
        } else {
            j + 1
        };
        assert(b[i] == a[x]);
        assert(b[j] == a[y]);
    }
}

proof fn lemma_position(s: Seq<usize>, x: usize)
    ensures
        0 <= position(s, x) <= s.len(),
        position(s, x) < s.len() ==> s[position(s, x)] == x,
        s.contains(x) ==> position(s, x) < s.len(),
    decreases s.len(),
{
    if s.len() > 0 && s.first() != x {
        lemma_position(s.drop_first(), x);
        if s.contains(x) {
            let k = choose|k: int| 0 <= k < s.len() && s[k] == x;
            assert(s.drop_first()[k - 1] == x);
        }
    }
}

/// As long as the system completes only what was submitted, no receive buffer is ever lost or
/// free twice.
pub proof fn law_buffers_are_never_lost(v: RingView, c: Completion)
    requires
        buffers_sound(v),
        op_of(c.user_data) == OP_RECV ==> v.pending.contains(idx_of(c.user_data)),
    ensures
        buffers_sound(completed(v, c)),
{
    if op_of(c.user_data) == OP_RECV {
        let x = idx_of(c.user_data);
        let p = v.pending;
        lemma_position(p, x);
        let at = position(p, x);
        let q = swap_removed(p, x);
        let f = v.free.push(x);
        let a = v.free + p;
        let b = f + q;
        let n = v.free.len() as int;
        assert forall|i: int| 0 <= i < q.len() implies #[trigger] q[i] < NUM_BUFFERS by {
            if i == at {
                assert(q[i] == p[p.len() - 1]);
            } else {
                assert(q[i] == p[i]);
            }
        }
        assert forall|i: int| 0 <= i < f.len() implies #[trigger] f[i] < NUM_BUFFERS by {
            if i < n {
                assert(f[i] == v.free[i]);
            } else {
                assert(f[i] == p[at]);
            }
        }
        assert forall|i: int, j: int| 0 <= i < b.len() && 0 <= j < b.len() && i != j implies b[i]
            != b[j] by {
            let s = lemma_source(v.free, p, x, i);
            let t = lemma_source(v.free, p, x, j);
            assert(s != t);
        }
    }
}

/// Where an entry of the lists after a completion stood before.
proof fn lemma_source(free: Seq<usize>, p: Seq<usize>, x: usize, i: int) -> (s: int)
    requires
        p.contains(x),
        0 <= i < (free.push(x) + swap_removed(p, x)).len(),
    ensures
        0 <= s < (free + p).len(),
        (free + p)[s] == (free.push(x) + swap_removed(p, x))[i],
        s == if i < free.len() {
            i
        } else if i == free.len() {
            free.len() + position(p, x)
        } else if i - free.len() - 1 == position(p, x) {
            free.len() + p.len() - 1
        } else {
            i - 1
        },
        0 <= position(p, x) < p.len(),
        position(p, x) == p.len() - 1 ==> i - free.len() - 1 != position(p, x),
{
    lemma_position(p, x);
    let at = position(p, x);
    if i < free.len() {
        i
    } else if i == free.len() {
        free.len() + at
    } else if i - free.len() - 1 == at {
        free.len() + p.len() - 1
    } else {
        i - 1
    }
}

/// Completions never change how many sends can be under way, and a slot that was handed out stays
/// taken until its own send completes.
pub proof fn law_slots_wait_for_their_send(
    slots: Seq<Option<SendBuffer>>,
    cs: Seq<Completion>,
    i: int,
)
    requires
        0 <= i < slots.len(),
    ensures
        emptied(slots, cs).len() == slots.len(),
        !send_done(cs, i as usize) ==> emptied(slots, cs)[i] == slots[i],
        send_done(cs, i as usize) ==> emptied(slots, cs)[i] is None,
{
}

/// A buffer that comes back is free again, last in line, and no longer with the system, whether
/// anything was received into it or not.
pub proof fn law_buffers_come_back(v: RingView, c: Completion)
    requires
        buffers_sound(v),
        op_of(c.user_data) == OP_RECV,
        v.pending.contains(idx_of(c.user_data)),
    ensures
        completed(v, c).free == v.free.push(idx_of(c.user_data)),
        completed(v, c).pending.len() == v.pending.len() - 1,
        !completed(v, c).pending.contains(idx_of(c.user_data)),
{
    let x = idx_of(c.user_data);
    law_buffers_are_never_lost(v, c);
    lemma_position(v.pending, x);
    let after = completed(v, c);
    let all = after.free + after.pending;
    if after.pending.contains(x) {
        let k = choose|k: int| 0 <= k < after.pending.len() && after.pending[k] == x;
        assert(all[v.free.len() as int] == x);
        assert(all[v.free.len() + 1 + k] == x);
    }
}

/// Every completion is counted once, under what it was and how it went; what cannot be told is
/// not counted.
pub proof fn law_completions_are_counted(v: RingView, c: Completion)
    requires
        v.received < u64::MAX,
        v.sent < u64::MAX,
        v.recv_errors < u64::MAX,
        v.send_errors < u64::MAX,
    ensures
        ({
            let r = completed(v, c);
            let recv = op_of(c.user_data) == 1;
            let send = op_of(c.user_data) == 2;
            let good = c.result >= 0;
            &&& r.received == v.received + (if recv && good && c.packet is Some {
                1int
            } else {
                0int
            })
            &&& r.recv_errors == v.recv_errors + (if recv && !(good && c.packet is Some) {
                1int
            } else {
                0int
            })
            &&& r.sent == v.sent + (if send && good {
                1int
            } else {
                0int
            })
            &&& r.send_errors == v.send_errors + (if send && !good {
                1int
            } else {
                0int
            })
            &&& delivered(c) is Some <==> recv && good && c.packet is Some
            &&& delivered(c) is Some ==> delivered(c) == c.packet
            &&& !recv ==> r.free == v.free && r.pending == v.pending
        }),
{
}

/// The packets come in the order of their completions, each once, and as many as are counted.
pub proof fn law_packets_come_in_order(v: RingView, cs: Seq<Completion>)
    requires
        v.received + cs.len() <= u64::MAX,
    ensures
        all_delivered(cs).len() <= cs.len(),
        all_completed(v, cs).received == v.received + all_delivered(cs).len(),
    decreases cs.len(),
{
    if cs.len() > 0 {
        law_packets_come_in_order(v, cs.drop_last());
    }
}

/// More completions add their packets after those of the earlier ones.
pub proof fn law_later_packets_come_later(a: Seq<Completion>, b: Seq<Completion>)
    ensures
        all_delivered(a + b) == all_delivered(a) + all_delivered(b),
    decreases b.len(),
{
    if b.len() > 0 {
        law_later_packets_come_later(a, b.drop_last());
        assert((a + b).drop_last() =~= a + b.drop_last());
        assert((a + b).last() == b.last());
        assert(all_delivered(a + b) =~= all_delivered(a) + all_delivered(b));
    } else {
        assert(a + b =~= a);
        assert(all_delivered(a) + all_delivered(b) =~= all_delivered(a));
    }
}

/// The slots that completions hand back are exactly those that were taken and whose send is done,
/// each once.
pub proof fn law_done_sends_free_their_slots(
    slots: Seq<Option<SendBuffer>>,
    cs: Seq<Completion>,
    x: usize,
)
    requires
        slots.len() <= usize::MAX,
    ensures
        freed(slots, cs, slots.len() as int).contains(x) <==> x < slots.len() && slots[x as int]
            is Some && send_done(cs, x),
        freed(slots, cs, slots.len() as int).no_duplicates(),
{
    lemma_freed(slots, cs, slots.len() as int);
}

/// Only the control message of coalescing tells a segment size, and the first of them counts.
pub proof fn law_the_first_segment_size_counts(
    before: Seq<ControlMessage>,
    m: ControlMessage,
    rest: Seq<ControlMessage>,
)
    requires
        m.level == 17 && m.kind == 104 && m.value is Some,
        forall|i: int|
            0 <= i < before.len() ==> (#[trigger] before[i]).level != 17 || before[i].kind != 104
                || before[i].value is None,
    ensures
        gso_of(before + seq![m] + rest) == m.value->0,
        gso_of(before) == 0,
    decreases before.len(),
{
    let all = before + seq![m] + rest;
    if before.len() > 0 {
        let tail = before.drop_first();
        assert forall|i: int| 0 <= i < tail.len() implies (#[trigger] tail[i]).level != 17
            || tail[i].kind != 104 || tail[i].value is None by {
            assert(tail[i] == before[i + 1]);
        }
        law_the_first_segment_size_counts(tail, m, rest);
        assert(all.drop_first() =~= tail + seq![m] + rest);
        assert(all.first() == before[0]);
        assert(before.first() == before[0]);
    } else {
        assert(all.first() == m);
    }
}

} // verus!
