//! Automatic performance tuning.
//!
//! What the system offers is read once; the networking backend and its parameters follow from it.
//! Backends in order of preference: AF_XDP (kernel 4.18 and a capable card), io_uring (kernel
//! 5.1), batched system calls, plain UDP.

use crate::parse::{number_of, parse_number, pieces, split, words, words_of};
use crate::text::{
    chars_of, contains, contains_text, decimal, line_at, lines, push_decimal, same_text, starts_with, text_of, texts, trim, trimmed,
};
use vstd::prelude::*;

verus! {

/// Network backend types in order of preference.
#[derive(Debug, Clone, Copy, PartialEq, Eq, Structural)]
pub enum NetworkBackend {
    /// AF_XDP zero-copy kernel bypass (best performance).
    AfXdp,
    /// io_uring async I/O (great performance).
    IoUring,
    /// recvmmsg/sendmmsg batched syscalls (good performance).
    BatchedSyscalls,
    /// Standard recvfrom/sendto (baseline).
    Standard,
}

impl NetworkBackend {
    /// The human-readable name.
    pub open spec fn label(self) -> Seq<char> {
        match self {
            NetworkBackend::AfXdp => "AF_XDP (zero-copy)"@,
            NetworkBackend::IoUring => "io_uring"@,
            NetworkBackend::BatchedSyscalls => "recvmmsg/sendmmsg"@,
            NetworkBackend::Standard => "standard UDP"@,
        }
    }

    /// Number of packets in one system call.
    pub open spec fn batch_size(self) -> int {
        match self {
            NetworkBackend::AfXdp => 64,
            NetworkBackend::IoUring => 64,
            NetworkBackend::BatchedSyscalls => 32,
            NetworkBackend::Standard => 1,
        }
    }

    /// Get human-readable name.
    pub fn name(&self) -> (s: &'static str)
        ensures
            s@ == self.label(),
    {
        match self {
            NetworkBackend::AfXdp => "AF_XDP (zero-copy)",
            NetworkBackend::IoUring => "io_uring",
            NetworkBackend::BatchedSyscalls => "recvmmsg/sendmmsg",
            NetworkBackend::Standard => "standard UDP",
        }
    }

    /// Estimated throughput capability.
    pub fn estimated_throughput(&self) -> (s: &'static str)
        ensures
            match *self {
                NetworkBackend::AfXdp => s@ == "10+ Gbps"@,
                NetworkBackend::IoUring => s@ == "5-10 Gbps"@,
                NetworkBackend::BatchedSyscalls => s@ == "1-5 Gbps"@,
                NetworkBackend::Standard => s@ == "~1 Gbps"@,
            },
    {
        match self {
            NetworkBackend::AfXdp => "10+ Gbps",
            NetworkBackend::IoUring => "5-10 Gbps",
            NetworkBackend::BatchedSyscalls => "1-5 Gbps",
            NetworkBackend::Standard => "~1 Gbps",
        }
    }
}

/// System capabilities detected at startup.
#[derive(Debug)]
pub struct SystemCapabilities {
    /// Number of CPU cores.
    pub cpu_cores: usize,
    /// Total RAM in bytes.
    pub total_memory: u64,
    /// Default network interface.
    pub default_interface: Option<String>,
    /// Number of NIC RX queues.
    pub nic_rx_queues: usize,
    /// NIC link speed in Mbps (0 if unknown).
    pub nic_speed_mbps: u32,
    /// Kernel version (major, minor).
    pub kernel_version: (u32, u32),
    /// AF_XDP available.
    pub has_afxdp: bool,
    /// io_uring available.
    pub has_io_uring: bool,
    /// recvmmsg/sendmmsg available.
    pub has_mmsg: bool,
    /// TUN multiqueue available.
    pub has_tun_multiqueue: bool,
    /// Selected network backend.
    pub backend: NetworkBackend,
}

impl Clone for SystemCapabilities {
    fn clone(&self) -> (c: SystemCapabilities)
        ensures
            text_view(c.default_interface) == text_view(self.default_interface),
            c == (SystemCapabilities { default_interface: c.default_interface, ..*self }),
    {
        SystemCapabilities {
            cpu_cores: self.cpu_cores,
            total_memory: self.total_memory,
            default_interface: match &self.default_interface {
                Some(name) => Some(String::from_str(name.as_str())),
                None => None,
            },
            nic_rx_queues: self.nic_rx_queues,
            nic_speed_mbps: self.nic_speed_mbps,
            kernel_version: self.kernel_version,
            has_afxdp: self.has_afxdp,
            has_io_uring: self.has_io_uring,
            has_mmsg: self.has_mmsg,
            has_tun_multiqueue: self.has_tun_multiqueue,
            backend: self.backend,
        }
    }
}

impl SystemCapabilities {
    /// Number of TUN queues: one for each queue of the card that has a core, at most sixteen.
    pub open spec fn tun_queues(self) -> int {
        if !self.has_tun_multiqueue || self.nic_rx_queues <= 1 || self.cpu_cores == 0 {
            1
        } else {
            let n = if self.nic_rx_queues <= self.cpu_cores {
                self.nic_rx_queues
            } else {
                self.cpu_cores
            };
            if n > 16 {
                16
            } else {
                n as int
            }
        }
    }

    /// Buffer size: 8 MB for every 2 GB of memory, from 8 MB to 64 MB.
    pub open spec fn buffer_size(self) -> int {
        let pairs = self.total_memory as int / 0x8000_0000;
        let units = if pairs < 1 {
            1
        } else if pairs > 8 {
            8
        } else {
            pairs
        };
        units * 0x80_0000
    }

    /// Get optimal number of TUN queues.
    pub fn optimal_tun_queues(&self) -> (n: usize)
        ensures
            n == self.tun_queues(),
    {
        if !self.has_tun_multiqueue {
            return 1;
        }
        let optimal: usize = if self.nic_rx_queues <= self.cpu_cores {
            self.nic_rx_queues
        } else {
            self.cpu_cores
        };
        if self.nic_rx_queues <= 1 {
            return 1;
        }
        if optimal < 1 {
            1
        } else if optimal > 16 {
            16
        } else {
            optimal
        }
    }

    /// Get optimal number of worker threads: as many as TUN queues.
    pub fn optimal_workers(&self) -> (n: usize)
        ensures
            n == self.tun_queues(),
    {
        self.optimal_tun_queues()
    }

    /// Get optimal buffer size in bytes.
    pub fn optimal_buffer_size(&self) -> (n: usize)
        ensures
            n == self.buffer_size(),
    {
        let pairs: u64 = self.total_memory / 1024 / 1024 / 1024 / 2;
        let units: usize = if pairs < 1 {
            1
        } else if pairs > 8 {
            8
        } else {
            pairs as usize
        };
        units * 8 * 1024 * 1024
    }

    /// Get optimal batch size for syscalls.
    pub fn optimal_batch_size(&self) -> (n: usize)
        ensures
            n == self.backend.batch_size(),
    {
        match self.backend {
            NetworkBackend::AfXdp => 64,
            NetworkBackend::IoUring => 64,
            NetworkBackend::BatchedSyscalls => 32,
            NetworkBackend::Standard => 1,
        }
    }
}

/// What was read from the system. A file that could not be read is `None`.
#[derive(Debug)]
pub struct SystemProbe {
    /// Whether the system is Linux.
    pub linux: bool,
    /// Number of threads that run in parallel.
    pub parallelism: Option<usize>,
    /// `/proc/meminfo`.
    pub meminfo: Option<String>,
    /// `/proc/net/route`.
    pub routes: Option<String>,
    /// Names of the queues of the default interface.
    pub queue_names: Option<Vec<String>>,
    /// Link speed of the default interface.
    pub link_speed: Option<String>,
    /// `/proc/sys/kernel/osrelease`.
    pub os_release: Option<String>,
    /// Name of the driver of the default interface.
    pub driver: Option<String>,
    /// Whether the system lets AF_XDP sockets be made.
    pub afxdp_supported: bool,
    /// `/proc/sys/kernel/io_uring_disabled`.
    pub io_uring_disabled: Option<String>,
    /// Whether the system lets a ring be made.
    pub io_uring_supported: bool,
    /// Whether `/dev/net/tun` exists.
    pub tun_exists: bool,
}

/// Total memory when it is unknown: 4 GB.
pub const DEFAULT_MEMORY: u64 = 4_294_967_296;

/// The number of kilobytes that a line says the memory has.
pub open spec fn memory_line(line: Seq<char>) -> Option<nat> {
    if starts_with(line, "MemTotal:"@) && words(line).len() >= 2 {
        number_of(words(line)[1], u64::MAX as nat)
    } else {
        None
    }
}

/// Total memory in bytes, by the first line that says it, kept to 64 bits.
pub open spec fn memory_in(ls: Seq<Seq<char>>) -> nat
    decreases ls.len(),
{
    if ls.len() == 0 {
        DEFAULT_MEMORY as nat
    } else {
        match memory_line(ls.first()) {
            Some(kb) => (kb * 1024) % 0x1_0000_0000_0000_0000,
            None => memory_in(ls.drop_first()),
        }
    }
}

/// Total memory in bytes by the text of `/proc/meminfo`.
pub open spec fn memory_of(meminfo: Option<Seq<char>>) -> nat {
    match meminfo {
        Some(t) => memory_in(lines(t)),
        None => DEFAULT_MEMORY as nat,
    }
}

/// Whether a line of the routing table is a default route.
pub open spec fn is_default_route(line: Seq<char>) -> bool {
    words(line).len() >= 2 && words(line)[1] == "00000000"@
}

/// The interface of the first default route.
pub open spec fn route_in(ls: Seq<Seq<char>>) -> Option<Seq<char>>
    decreases ls.len(),
{
    if ls.len() == 0 {
        None
    } else if is_default_route(ls.first()) {
        Some(words(ls.first())[0])
    } else {
        route_in(ls.drop_first())
    }
}

/// The default interface by the text of `/proc/net/route`, whose first line is a heading.
pub open spec fn interface_of(routes: Option<Seq<char>>) -> Option<Seq<char>> {
    match routes {
        Some(t) => if lines(t).len() == 0 {
            None
        } else {
            route_in(lines(t).drop_first())
        },
        None => None,
    }
}

/// How many names are those of receive queues.
pub open spec fn rx_count(names: Seq<Seq<char>>) -> nat
    decreases names.len(),
{
    if names.len() == 0 {
        0
    } else {
        rx_count(names.drop_last()) + if starts_with(names.last(), "rx-"@) {
            1nat
        } else {
            0nat
        }
    }
}

/// Number of receive queues, at least one.
pub open spec fn rx_queues_of(names: Option<Seq<Seq<char>>>) -> nat {
    match names {
        Some(n) => if rx_count(n) > 0 {
            rx_count(n)
        } else {
            1
        },
        None => 1,
    }
}

/// The link speed in Mbps, zero when it is unknown.
pub open spec fn speed_of(text: Option<Seq<char>>) -> nat {
    match text {
        Some(t) => match number_of(trim(t), i32::MAX as nat) {
            Some(n) => n,
            None => 0,
        },
        None => 0,
    }
}

/// The kernel's major and minor version; zeros when the release does not say.
pub open spec fn kernel_of(release: Option<Seq<char>>) -> (nat, nat) {
    match release {
        Some(t) => {
            let p = pieces(trim(t), '.');
            if p.len() >= 2 {
                match (number_of(p[0], u32::MAX as nat), number_of(p[1], u32::MAX as nat)) {
                    (Some(a), Some(b)) => (a, b),
                    _ => (0, 0),
                }
            } else {
                (0, 0)
            }
        },
        None => (0, 0),
    }
}

/// Whether a kernel is at least of the given version.
pub open spec fn at_least(kernel: (u32, u32), major: u32, minor: u32) -> bool {
    kernel.0 > major || (kernel.0 == major && kernel.1 >= minor)
}

/// Drivers that are known to support XDP.
pub open spec fn xdp_drivers() -> Seq<Seq<char>> {
    seq![
        "i40e"@, "ixgbe"@, "ixgbevf"@, "mlx4_en"@, "mlx5_core"@, "nfp"@, "virtio_net"@, "veth"@,
        "tun"@, "e1000e"@, "igb"@, "igc"@, "bnxt_en"@, "thunder"@, "qede"@, "sfc"@, "atlantic"@,
        "ice"@,
    ]
}

/// Whether a driver's name holds that of one known to support XDP.
pub open spec fn is_xdp_driver(driver: Seq<char>) -> bool {
    exists|i: int| 0 <= i < xdp_drivers().len() && contains_text(driver, #[trigger] xdp_drivers()[i])
}

/// Whether AF_XDP can be used.
pub open spec fn afxdp_usable(
    kernel: (u32, u32),
    interface: Option<Seq<char>>,
    driver: Option<Seq<char>>,
    supported: bool,
) -> bool {
    &&& at_least(kernel, 4, 18)
    &&& interface is Some
    &&& (driver matches Some(d) && is_xdp_driver(d)) || kernel.0 >= 5
    &&& supported
}

/// Whether io_uring can be used.
pub open spec fn io_uring_usable(
    kernel: (u32, u32),
    disabled: Option<Seq<char>>,
    supported: bool,
) -> bool {
    &&& at_least(kernel, 5, 1)
    &&& !(disabled matches Some(d) && trim(d) == "2"@)
    &&& supported
}

/// The view of an optional text.
pub open spec fn text_view(t: Option<String>) -> Option<Seq<char>> {
    match t {
        Some(s) => Some(s@),
        None => None,
    }
}

/// The views of an optional list of texts.
pub open spec fn list_view(t: Option<Vec<String>>) -> Option<Seq<Seq<char>>> {
    match t {
        Some(v) => Some(texts(v@)),
        None => None,
    }
}

/// The number of CPU cores, at least one.
pub open spec fn cores_of(parallelism: Option<usize>) -> usize {
    match parallelism {
        Some(p) => if p == 0 {
            1
        } else {
            p
        },
        None => 1,
    }
}

/// Number of CPU cores, at least one.
pub fn detect_cpu_cores(parallelism: Option<usize>) -> (n: usize)
    ensures
        n == cores_of(parallelism),
        n >= 1,
{
    match parallelism {
        Some(p) => if p == 0 {
            1
        } else {
            p
        },
        None => 1,
    }
}

/// Total memory in bytes.
pub fn detect_total_memory(meminfo: &Option<String>) -> (n: u64)
    ensures
        n == memory_of(text_view(*meminfo)),
{
    let text = match meminfo {
        Some(t) => t,
        None => {
            return DEFAULT_MEMORY;
        },
    };
    let chars = chars_of(text.as_str());
    let ghost s = text@;
    let mut at: usize = 0;
    proof {
        assert(s.skip(0) =~= s);
    }
    while at < chars.len()
        invariant
            at <= chars@.len(),
            chars@ == s,
            text_view(*meminfo) == Some(s),
            memory_in(lines(s)) == memory_in(lines(s.skip(at as int))),
        decreases chars@.len() - at,
    {
        let (end, next) = line_at(chars.as_slice(), at);
        let ghost rest = s.skip(at as int);
        let ghost line = chars@.subrange(at as int, end as int);
        proof {
            assert(lines(rest).first() == line);
            assert(lines(rest).drop_first() =~= lines(s.skip(next as int)));
        }
        if prefixed_by(chars.as_slice(), at, end, "MemTotal:") {
            let parts = words_of(chars.as_slice(), at, end);
            if parts.len() >= 2 {
                assert(parts@[1]@ == words(line)[1]);
                if let Some(kb) = parse_number(parts[1].as_slice(), u64::MAX) {
                    let bytes: u128 = (kb as u128) * 1024;
                    return (bytes % 0x1_0000_0000_0000_0000) as u64;
                }
            }
        }
        at = next;
    }
    proof {
        assert(s.skip(at as int) =~= Seq::empty());
    }
    DEFAULT_MEMORY
}

/// Whether the characters from `from` up to `to` start with `prefix`.
fn prefixed_by(chars: &[char], from: usize, to: usize, prefix: &str) -> (b: bool)
    requires
        from <= to <= chars@.len(),
    ensures
        b == starts_with(chars@.subrange(from as int, to as int), prefix@),
{
    let p = chars_of(prefix);
    if to - from < p.len() {
        return false;
    }
    let head = text_of(chars, from, from + p.len());
    proof {
        assert(chars@.subrange(from as int, to as int).take(p@.len() as int) =~= chars@.subrange(
            from as int,
            from + p@.len(),
        ));
    }
    same_text(head.as_str(), prefix)
}

/// The interface of the default route.
pub fn detect_default_interface(routes: &Option<String>) -> (r: Option<String>)
    ensures
        text_view(r) == interface_of(text_view(*routes)),
{
    let text = match routes {
        Some(t) => t,
        None => {
            return None;
        },
    };
    let chars = chars_of(text.as_str());
    let ghost s = text@;
    proof {
        assert(s.skip(0) =~= s);
    }
    if chars.len() == 0 {
        return None;
    }
    let (_, first) = line_at(chars.as_slice(), 0);
    let mut at: usize = first;
    proof {
        assert(lines(s).drop_first() =~= lines(s.skip(first as int)));
    }
    while at < chars.len()
        invariant
            at <= chars@.len(),
            chars@ == s,
            text_view(*routes) == Some(s),
            interface_of(Some(s)) == route_in(lines(s.skip(at as int))),
        decreases chars@.len() - at,
    {
        let (end, next) = line_at(chars.as_slice(), at);
        let ghost rest = s.skip(at as int);
        let ghost line = chars@.subrange(at as int, end as int);
        proof {
            assert(lines(rest).first() == line);
            assert(lines(rest).drop_first() =~= lines(s.skip(next as int)));
        }
        let fields = words_of(chars.as_slice(), at, end);
        if fields.len() >= 2 {
            assert(fields@[0]@ == words(line)[0]);
            assert(fields@[1]@ == words(line)[1]);
            let destination = text_of(fields[1].as_slice(), 0, fields[1].len());
            proof {
                assert(fields@[1]@.subrange(0, fields@[1]@.len() as int) =~= fields@[1]@);
                assert(fields@[0]@.subrange(0, fields@[0]@.len() as int) =~= fields@[0]@);
            }
            if same_text(destination.as_str(), "00000000") {
                return Some(text_of(fields[0].as_slice(), 0, fields[0].len()));
            }
        }
        at = next;
    }
    proof {
        assert(s.skip(at as int) =~= Seq::empty());
    }
    None
}

/// Number of receive queues of a card by the names of its queues.
pub fn detect_nic_rx_queues(names: &Option<Vec<String>>) -> (n: usize)
    ensures
        n == rx_queues_of(list_view(*names)),
{
    let names = match names {
        Some(v) => v,
        None => {
            return 1;
        },
    };
    let ghost all = texts(names@);
    let mut count: usize = 0;
    let mut i: usize = 0;
    proof {
        assert(all.take(0) =~= Seq::empty());
    }
    while i < names.len()
        invariant
            i <= names@.len(),
            all == texts(names@),
            count == rx_count(all.take(i as int)),
            count <= i,
        decreases names@.len() - i,
    {
        let chars = chars_of(names[i].as_str());
        proof {
            assert(all.take(i + 1).drop_last() =~= all.take(i as int));
            assert(all.take(i + 1).last() == chars@);
            assert(chars@.subrange(0, chars@.len() as int) =~= chars@);
        }
        if prefixed_by(chars.as_slice(), 0, chars.len(), "rx-") {
            count += 1;
        }
        i += 1;
    }
    proof {
        assert(all.take(all.len() as int) =~= all);
    }
    if count > 0 {
        count
    } else {
        1
    }
}

/// Link speed of a card in Mbps, zero when it is unknown.
pub fn detect_nic_speed(text: &Option<String>) -> (n: u32)
    ensures
        n == speed_of(text_view(*text)),
{
    if let Some(t) = text {
        let core = trimmed(t.as_str());
        let chars = chars_of(core.as_str());
        if let Some(n) = parse_number(chars.as_slice(), i32::MAX as u64) {
            return n as u32;
        }
    }
    0
}

/// The kernel's major and minor version.
pub fn detect_kernel_version(release: &Option<String>) -> (v: (u32, u32))
    ensures
        (v.0 as nat, v.1 as nat) == kernel_of(text_view(*release)),
{
    if let Some(t) = release {
        let core = trimmed(t.as_str());
        let chars = chars_of(core.as_str());
        let p = split(chars.as_slice(), '.');
        if p.len() >= 2 {
            assert(p@[0]@ == pieces(core@, '.')[0]);
            assert(p@[1]@ == pieces(core@, '.')[1]);
            match (
                parse_number(p[0].as_slice(), u32::MAX as u64),
                parse_number(p[1].as_slice(), u32::MAX as u64),
            ) {
                (Some(a), Some(b)) => {
                    return (a as u32, b as u32);
                },
                _ => {},
            }
        }
    }
    (0, 0)
}

fn reaches(kernel: (u32, u32), major: u32, minor: u32) -> (b: bool)
    ensures
        b == at_least(kernel, major, minor),
{
    kernel.0 > major || (kernel.0 == major && kernel.1 >= minor)
}

fn supports_xdp(driver: &str) -> (b: bool)
    ensures
        b == is_xdp_driver(driver@),
{
    let known: [&str; 18] = [
        "i40e", "ixgbe", "ixgbevf", "mlx4_en", "mlx5_core", "nfp", "virtio_net", "veth", "tun",
        "e1000e", "igb", "igc", "bnxt_en", "thunder", "qede", "sfc", "atlantic", "ice",
    ];
    let chars = chars_of(driver);
    let mut i: usize = 0;
    while i < 18
        invariant
            i <= 18,
            chars@ == driver@,
            known@.len() == 18,
            xdp_drivers().len() == 18,
            forall|k: int| 0 <= k < 18 ==> (#[trigger] known@[k])@ == xdp_drivers()[k],
            forall|k: int| 0 <= k < i ==> !contains_text(driver@, #[trigger] xdp_drivers()[k]),
        decreases 18 - i,
    {
        assert(known@[i as int]@ == xdp_drivers()[i as int]);
        if contains(chars.as_slice(), known[i]) {
            return true;
        }
        i += 1;
    }
    false
}

/// Whether AF_XDP can be used: kernel 4.18, an interface, a capable driver or kernel 5, and the
/// system's word for it.
pub fn check_afxdp_support(
    kernel: (u32, u32),
    interface: &Option<String>,
    driver: &Option<String>,
    supported: bool,
) -> (b: bool)
    ensures
        b == afxdp_usable(kernel, text_view(*interface), text_view(*driver), supported),
{
    if !reaches(kernel, 4, 18) || interface.is_none() {
        return false;
    }
    if let Some(d) = driver {
        if supports_xdp(d.as_str()) {
            return supported;
        }
    }
    kernel.0 >= 5 && supported
}

/// Whether io_uring can be used: kernel 5.1, not disabled, and the system's word for it.
pub fn check_io_uring_support(kernel: (u32, u32), disabled: &Option<String>, supported: bool) -> (b:
    bool)
    ensures
        b == io_uring_usable(kernel, text_view(*disabled), supported),
{
    if !reaches(kernel, 5, 1) {
        return false;
    }
    if let Some(d) = disabled {
        let core = trimmed(d.as_str());
        if same_text(core.as_str(), "2") {
            return false;
        }
    }
    supported
}

/// Whether TUN devices can have several queues: kernel 3.8 and a TUN device.
pub fn check_tun_multiqueue_support(kernel: (u32, u32), tun_exists: bool) -> (b: bool)
    ensures
        b == (at_least(kernel, 3, 8) && tun_exists),
{
    reaches(kernel, 3, 8) && tun_exists
}

/// The best of the backends that are available.
pub open spec fn best_backend(afxdp: bool, io_uring: bool, mmsg: bool) -> NetworkBackend {
    if afxdp {
        NetworkBackend::AfXdp
    } else if io_uring {
        NetworkBackend::IoUring
    } else if mmsg {
        NetworkBackend::BatchedSyscalls
    } else {
        NetworkBackend::Standard
    }
}

impl SystemCapabilities {
    /// Whether these are the capabilities that a probe shows.
    pub open spec fn shown_by(self, p: SystemProbe) -> bool {
        let interface = interface_of(text_view(p.routes));
        &&& self.cpu_cores == cores_of(p.parallelism)
        &&& self.total_memory == memory_of(text_view(p.meminfo))
        &&& text_view(self.default_interface) == interface
        &&& self.nic_rx_queues == (if interface is Some {
            rx_queues_of(list_view(p.queue_names))
        } else {
            1
        })
        &&& self.nic_speed_mbps == (if interface is Some {
            speed_of(text_view(p.link_speed))
        } else {
            0
        })
        &&& (self.kernel_version.0 as nat, self.kernel_version.1 as nat) == kernel_of(
            text_view(p.os_release),
        )
        &&& self.has_afxdp == afxdp_usable(
            self.kernel_version,
            interface,
            text_view(p.driver),
            p.afxdp_supported,
        )
        &&& self.has_io_uring == io_uring_usable(
            self.kernel_version,
            text_view(p.io_uring_disabled),
            p.io_uring_supported,
        )
        &&& self.has_mmsg == p.linux
        &&& self.has_tun_multiqueue == (at_least(self.kernel_version, 3, 8) && p.tun_exists)
        &&& self.backend == best_backend(self.has_afxdp, self.has_io_uring, self.has_mmsg)
    }

    /// Detect system capabilities.
    pub fn detect(probe: &SystemProbe) -> (caps: SystemCapabilities)
        ensures
            caps.shown_by(*probe),
            caps.cpu_cores >= 1,
    {
        let cpu_cores: usize = detect_cpu_cores(probe.parallelism);
        let total_memory: u64 = detect_total_memory(&probe.meminfo);
        let default_interface = detect_default_interface(&probe.routes);
        let nic_rx_queues: usize = if default_interface.is_some() {
            detect_nic_rx_queues(&probe.queue_names)
        } else {
            1
        };
        let nic_speed_mbps: u32 = if default_interface.is_some() {
            detect_nic_speed(&probe.link_speed)
        } else {
            0
        };
        let kernel_version = detect_kernel_version(&probe.os_release);
        let has_afxdp = check_afxdp_support(
            kernel_version,
            &default_interface,
            &probe.driver,
            probe.afxdp_supported,
        );
        let has_io_uring = check_io_uring_support(
            kernel_version,
            &probe.io_uring_disabled,
            probe.io_uring_supported,
        );
        let has_mmsg = probe.linux;
        let has_tun_multiqueue = check_tun_multiqueue_support(kernel_version, probe.tun_exists);
        let backend = if has_afxdp {
            NetworkBackend::AfXdp
        } else if has_io_uring {
            NetworkBackend::IoUring
        } else if has_mmsg {
            NetworkBackend::BatchedSyscalls
        } else {
            NetworkBackend::Standard
        };
        SystemCapabilities {
            cpu_cores,
            total_memory,
            default_interface,
            nic_rx_queues,
            nic_speed_mbps,
            kernel_version,
            has_afxdp,
            has_io_uring,
            has_mmsg,
            has_tun_multiqueue,
            backend,
        }
    }

    /// How to get more out of a card with one queue on a machine with several cores, if it is
    /// such a machine.
    pub fn queue_hint(&self) -> (r: Option<String>)
        ensures
            match r {
                Some(s) => self.nic_rx_queues == 1 && self.cpu_cores > 1 && s@ == "Try: ethtool -L "@
                    + (match self.default_interface {
                    Some(i) => i@,
                    None => "eth0"@,
                }) + " combined "@ + decimal(
                    if self.cpu_cores > 8 {
                        8
                    } else {
                        self.cpu_cores as nat
                    },
                ) + " (if driver supports multi-queue)"@,
                None => self.nic_rx_queues != 1 || self.cpu_cores <= 1,
            },
    {
        if self.nic_rx_queues != 1 || self.cpu_cores <= 1 {
            return None;
        }
        let mut s = String::from_str("Try: ethtool -L ");
        match &self.default_interface {
            Some(i) => {
                s.append(i.as_str());
            },
            None => {
                s.append("eth0");
            },
        }
        s.append(" combined ");
        push_decimal(
            &mut s,
            if self.cpu_cores > 8 {
                8
            } else {
                self.cpu_cores as u64
            },
        );
        s.append(" (if driver supports multi-queue)");
        Some(s)
    }
}

/// Auto-tuned runtime configuration.
#[derive(Debug, Clone)]
pub struct RuntimeConfig {
    /// Selected network backend.
    pub backend: NetworkBackend,
    /// Network interface for AF_XDP.
    pub interface: String,
    /// Number of TUN queues.
    pub tun_queues: usize,
    /// Number of worker threads.
    pub workers: usize,
    /// UDP receive buffer size.
    pub recv_buffer_size: usize,
    /// UDP send buffer size.
    pub send_buffer_size: usize,
    /// Batch size for recv/send.
    pub batch_size: usize,
    /// Enable TUN multiqueue.
    pub tun_multiqueue: bool,
}

fn word(b: bool) -> (s: &'static str)
    ensures
        s@ == (if b {
            "true"@
        } else {
            "false"@
        }),
{
    if b {
        "true"
    } else {
        "false"
    }
}

/// A label followed by a number.
fn numbered(label: &str, n: usize, unit: &str) -> (s: String)
    ensures
        s@ == label@ + decimal(n as nat) + unit@,
{
    let mut s = String::from_str(label);
    push_decimal(&mut s, n as u64);
    s.append(unit);
    s
}

impl RuntimeConfig {
    /// Create auto-tuned configuration for a system with these capabilities.
    pub fn auto(caps: &SystemCapabilities) -> (c: RuntimeConfig)
        ensures
            c.backend == caps.backend,
            match caps.default_interface {
                Some(i) => c.interface@ == i@,
                None => c.interface@.len() == 0,
            },
            c.tun_queues == caps.tun_queues(),
            c.workers == caps.tun_queues(),
            c.recv_buffer_size == caps.buffer_size(),
            c.send_buffer_size == caps.buffer_size(),
            c.batch_size == caps.backend.batch_size(),
            c.tun_multiqueue == (caps.has_tun_multiqueue && caps.tun_queues() > 1),
    {
        let interface = match &caps.default_interface {
            Some(i) => String::from_str(i.as_str()),
            None => String::new(),
        };
        RuntimeConfig {
            backend: caps.backend,
            interface,
            tun_queues: caps.optimal_tun_queues(),
            workers: caps.optimal_workers(),
            recv_buffer_size: caps.optimal_buffer_size(),
            send_buffer_size: caps.optimal_buffer_size(),
            batch_size: caps.optimal_batch_size(),
            tun_multiqueue: caps.has_tun_multiqueue && caps.optimal_tun_queues() > 1,
        }
    }

    /// The lines that describe the configuration in the log.
    pub open spec fn log_lines(self) -> Seq<Seq<char>> {
        let head = seq![
            "Runtime configuration (auto-tuned):"@,
            "  Network backend: "@ + self.backend.label(),
        ];
        let middle = if self.backend == NetworkBackend::AfXdp {
            head.push("  AF_XDP interface: "@ + self.interface@)
        } else {
            head
        };
        middle + seq![
            "  TUN queues: "@ + decimal(self.tun_queues as nat) + ""@,
            "  Worker threads: "@ + decimal(self.workers as nat) + ""@,
            "  Buffer sizes: "@ + decimal((self.recv_buffer_size / 1024 / 1024) as nat)
                + " MB (recv/send)"@,
            "  Batch size: "@ + decimal(self.batch_size as nat) + ""@,
            "  TUN multiqueue: "@ + if self.tun_multiqueue {
                "true"@
            } else {
                "false"@
            },
        ]
    }

    /// The lines to log.
    pub fn log(&self) -> (v: Vec<String>)
        ensures
            texts(v@) == self.log_lines(),
    {
        let mut v: Vec<String> = Vec::new();
        v.push(String::from_str("Runtime configuration (auto-tuned):"));
        let mut line = String::from_str("  Network backend: ");
        line.append(self.backend.name());
        v.push(line);
        if let NetworkBackend::AfXdp = self.backend {
            let mut interface = String::from_str("  AF_XDP interface: ");
            interface.append(self.interface.as_str());
            v.push(interface);
        }
        v.push(numbered("  TUN queues: ", self.tun_queues, ""));
        v.push(numbered("  Worker threads: ", self.workers, ""));
        v.push(numbered("  Buffer sizes: ", self.recv_buffer_size / 1024 / 1024, " MB (recv/send)"));
        v.push(numbered("  Batch size: ", self.batch_size, ""));
        let mut multiqueue = String::from_str("  TUN multiqueue: ");
        multiqueue.append(word(self.tun_multiqueue));
        v.push(multiqueue);
        proof {
            assert(texts(v@) =~= self.log_lines());
        }
        v
    }
}

/// A backend is selected only when the system offers it, and none that it prefers is offered.
pub proof fn law_backend_is_best_available(c: SystemCapabilities, p: SystemProbe)
    requires
        c.shown_by(p),
    ensures
        c.backend == NetworkBackend::AfXdp <==> c.has_afxdp,
        c.backend == NetworkBackend::IoUring <==> !c.has_afxdp && c.has_io_uring,
        c.backend == NetworkBackend::BatchedSyscalls <==> !c.has_afxdp && !c.has_io_uring && p.linux,
        c.has_afxdp ==> at_least(c.kernel_version, 4, 18),
        c.has_io_uring ==> at_least(c.kernel_version, 5, 1),
{
}

/// There is always at least one queue, never more than sixteen, and never more than the card or
/// the machine can serve; buffers have from 8 MB to 64 MB and grow with the memory.
pub proof fn law_tuning_is_bounded(c: SystemCapabilities, larger: SystemCapabilities)
    requires
        c.total_memory <= larger.total_memory,
    ensures
        1 <= c.tun_queues() <= 16,
        c.tun_queues() > 1 ==> c.tun_queues() <= c.nic_rx_queues && c.tun_queues() <= c.cpu_cores,
        8 * 1024 * 1024 <= c.buffer_size() <= 64 * 1024 * 1024,
        c.buffer_size() <= larger.buffer_size(),
        c.backend.batch_size() >= 1,
{
    assert(c.total_memory as int / 0x8000_0000 <= larger.total_memory as int / 0x8000_0000);
}

/// Versions are ordered by their major number and then by their minor one.
pub proof fn law_versions_are_ordered(kernel: (u32, u32), major: u32, minor: u32)
    ensures
        at_least(kernel, major, minor) <==> kernel.0 * 0x1_0000_0000 + kernel.1 >= major
            * 0x1_0000_0000 + minor,
{
}

/// There are as many queues as the card, the machine and the limit of sixteen all allow, where
/// there can be several at all.
pub proof fn law_queues_are_used(c: SystemCapabilities)
    ensures
        c.has_tun_multiqueue && c.nic_rx_queues > 1 && c.cpu_cores >= 1 ==> c.tun_queues()
            <= c.nic_rx_queues && c.tun_queues() <= c.cpu_cores && c.tun_queues() <= 16 && (
        c.tun_queues() == c.nic_rx_queues || c.tun_queues() == c.cpu_cores || c.tun_queues() == 16),
        !c.has_tun_multiqueue || c.nic_rx_queues <= 1 ==> c.tun_queues() == 1,
{
}

/// Buffers have eight megabytes for every two gigabytes of memory, eight at least and sixty-four
/// at most.
pub proof fn law_buffers_follow_the_memory(c: SystemCapabilities, n: int)
    requires
        n * 2_147_483_648 <= c.total_memory < (n + 1) * 2_147_483_648,
    ensures
        1 <= n <= 8 ==> c.buffer_size() == n * 8_388_608,
        n < 1 ==> c.buffer_size() == 8_388_608,
        n > 8 ==> c.buffer_size() == 67_108_864,
{
    assert(c.total_memory as int / 0x8000_0000 == n);
}

/// The first line that tells the memory counts; lines that tell nothing are passed over, and
/// without any it is taken for four gigabytes.
pub proof fn law_the_first_memory_line_counts(
    before: Seq<Seq<char>>,
    line: Seq<char>,
    rest: Seq<Seq<char>>,
    kb: nat,
)
    requires
        memory_line(line) == Some(kb),
        kb * 1024 <= u64::MAX,
        forall|i: int| 0 <= i < before.len() ==> memory_line(#[trigger] before[i]) is None,
    ensures
        memory_in(before + seq![line] + rest) == kb * 1024,
        memory_in(before) == 4_294_967_296,
    decreases before.len(),
{
    let all = before + seq![line] + rest;
    if before.len() > 0 {
        let tail = before.drop_first();
        assert forall|i: int| 0 <= i < tail.len() implies memory_line(
            #[trigger] tail[i],
        ) is None by {
            assert(tail[i] == before[i + 1]);
        }
        law_the_first_memory_line_counts(tail, line, rest, kb);
        assert(all.drop_first() =~= tail + seq![line] + rest);
        assert(all.first() == before[0]);
        assert(before.first() == before[0]);
    } else {
        assert(all.first() == line);
    }
}

/// The interface is that of the first default route, whatever other routes there are; without a
/// default route there is none.
pub proof fn law_the_first_default_route_counts(
    before: Seq<Seq<char>>,
    line: Seq<char>,
    rest: Seq<Seq<char>>,
)
    requires
        words(line).len() >= 2 && words(line)[1] == "00000000"@,
        forall|i: int|
            0 <= i < before.len() ==> words(#[trigger] before[i]).len() < 2 || words(before[i])[1]
                != "00000000"@,
    ensures
        route_in(before + seq![line] + rest) == Some(words(line)[0]),
        route_in(before) is None,
    decreases before.len(),
{
    let all = before + seq![line] + rest;
    if before.len() > 0 {
        let tail = before.drop_first();
        assert forall|i: int| 0 <= i < tail.len() implies words(#[trigger] tail[i]).len() < 2
            || words(tail[i])[1] != "00000000"@ by {
            assert(tail[i] == before[i + 1]);
        }
        law_the_first_default_route_counts(tail, line, rest);
        assert(all.drop_first() =~= tail + seq![line] + rest);
        assert(all.first() == before[0]);
        assert(before.first() == before[0]);
    } else {
        assert(all.first() == line);
    }
}

/// Each name of a receive queue counts once and no other name does.
pub proof fn law_receive_queues_are_counted(names: Seq<Seq<char>>, name: Seq<char>)
    ensures
        rx_count(names.push(name)) == rx_count(names) + (if starts_with(name, "rx-"@) {
            1nat
        } else {
            0nat
        }),
        rx_queues_of(Some(names)) >= 1,
        rx_count(names) >= 1 ==> rx_queues_of(Some(names)) == rx_count(names),
        rx_queues_of(None) == 1,
{
    assert(names.push(name).drop_last() =~= names);
}

/// AF_XDP needs kernel 4.18, an interface and the system's word, and before kernel 5 a driver that
/// is known to support it; io_uring needs kernel 5.1, the system's word, and not to be disabled.
pub proof fn law_backends_have_their_needs(
    kernel: (u32, u32),
    interface: Option<Seq<char>>,
    driver: Option<Seq<char>>,
    disabled: Option<Seq<char>>,
    supported: bool,
)
    ensures
        !supported ==> !afxdp_usable(kernel, interface, driver, supported) && !io_uring_usable(
            kernel,
            disabled,
            supported,
        ),
        kernel.0 < 4 || (kernel.0 == 4 && kernel.1 < 18) || interface is None ==> !afxdp_usable(
            kernel,
            interface,
            driver,
            supported,
        ),
        kernel.0 < 5 && driver is None ==> !afxdp_usable(kernel, interface, driver, supported),
        kernel.0 >= 5 && interface is Some && supported ==> afxdp_usable(
            kernel,
            interface,
            driver,
            supported,
        ),
        kernel.0 == 4 && kernel.1 >= 18 && interface is Some && supported ==> (afxdp_usable(
            kernel,
            interface,
            driver,
            supported,
        ) <==> driver is Some && is_xdp_driver(driver->0)),
        kernel.0 < 5 || (kernel.0 == 5 && kernel.1 < 1) ==> !io_uring_usable(
            kernel,
            disabled,
            supported,
        ),
        (kernel.0 > 5 || (kernel.0 == 5 && kernel.1 >= 1)) && supported ==> (io_uring_usable(
            kernel,
            disabled,
            supported,
        ) <==> disabled is None || trim(disabled->0) != "2"@),
{
}

} // verus!
