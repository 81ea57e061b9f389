//! Totals over all relay sessions.

use crate::byte_size::{byte_text, human_bytes};
use crate::model::map_sum;
use crate::relay::session::RelaySession;
use crate::text::{decimal, push_decimal};
use vstd::prelude::*;

verus! {

/// Aggregate statistics for all sessions.
#[derive(Clone, Copy, Debug, PartialEq, Eq, Structural)]
pub struct AggregateStats {
    pub session_count: usize,
    pub total_bytes_sent: u64,
    pub total_bytes_received: u64,
    pub total_packets_sent: u64,
    pub total_packets_received: u64,
}

impl Default for AggregateStats {
    fn default() -> (s: AggregateStats)
        ensures
            s == AggregateStats::zero(),
    {
        AggregateStats {
            session_count: 0,
            total_bytes_sent: 0,
            total_bytes_received: 0,
            total_packets_sent: 0,
            total_packets_received: 0,
        }
    }
}

/// A sum as a machine word holds it.
pub open spec fn word(n: int) -> u64 {
    (n % 0x1_0000_0000_0000_0000) as u64
}

/// The totals of a session table; each wraps around.
pub open spec fn totals(t: Map<u64, RelaySession>) -> AggregateStats {
    AggregateStats {
        session_count: t.dom().len() as usize,
        total_bytes_sent: word(map_sum(t, |s: RelaySession| s.bytes_sent as int)),
        total_bytes_received: word(map_sum(t, |s: RelaySession| s.bytes_received as int)),
        total_packets_sent: word(map_sum(t, |s: RelaySession| s.packets_sent as int)),
        total_packets_received: word(map_sum(t, |s: RelaySession| s.packets_received as int)),
    }
}

impl AggregateStats {
    /// Nothing counted.
    pub open spec fn zero() -> AggregateStats {
        AggregateStats {
            session_count: 0,
            total_bytes_sent: 0,
            total_bytes_received: 0,
            total_packets_sent: 0,
            total_packets_received: 0,
        }
    }

    /// The totals as one line.
    pub open spec fn line(self) -> Seq<char> {
        "Sessions: "@ + decimal(self.session_count as nat) + ", Sent: "@ + byte_text(
            self.total_bytes_sent as nat,
            " "@,
        ) + " ("@ + decimal(self.total_packets_sent as nat) + " pkts), Recv: "@ + byte_text(
            self.total_bytes_received as nat,
            " "@,
        ) + " ("@ + decimal(self.total_packets_received as nat) + " pkts)"@
    }

    /// Format as human-readable string.
    pub fn format(&self) -> (s: String)
        ensures
            s@ == self.line(),
    {
        let mut s = String::new();
        s.append("Sessions: ");
        push_decimal(&mut s, self.session_count as u64);
        s.append(", Sent: ");
        let sent = format_bytes(self.total_bytes_sent);
        s.append(sent.as_str());
        s.append(" (");
        push_decimal(&mut s, self.total_packets_sent);
        s.append(" pkts), Recv: ");
        let received = format_bytes(self.total_bytes_received);
        s.append(received.as_str());
        s.append(" (");
        push_decimal(&mut s, self.total_packets_received);
        s.append(" pkts)");
        proof {
            assert(s@ =~= self.line());
        }
        s
    }
}

/// Format bytes as human-readable string.
pub fn format_bytes(bytes: u64) -> (s: String)
    ensures
        s@ == byte_text(bytes as nat, " "@),
{
    human_bytes(bytes, " ")
}

} // verus!
