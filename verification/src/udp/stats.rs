//! UDP transport statistics.

use vstd::prelude::*;

verus! {

/// A counter after `n` more events. Counters wrap around.
pub open spec fn counted(counter: u64, n: int) -> int {
    (counter + n) % 0x1_0000_0000_0000_0000
}

fn count(counter: u64, n: usize) -> (next: u64)
    ensures
        next == counted(counter, n as int),
{
    let next: u64 = counter.wrapping_add(n as u64);
    proof {
        if counter + n >= 0x1_0000_0000_0000_0000 {
            assert((counter + n) % 0x1_0000_0000_0000_0000 == counter + n
                - 0x1_0000_0000_0000_0000) by (nonlinear_arith)
                requires
                    0x1_0000_0000_0000_0000 <= counter + n < 2 * 0x1_0000_0000_0000_0000,
            ;
        }
    }
    next
}

/// Counters of a UDP transport at one point in time.
#[derive(Clone, Copy, Debug, PartialEq, Eq, Structural)]
pub struct UdpStatsSnapshot {
    pub packets_sent: u64,
    pub bytes_sent: u64,
    pub packets_recv: u64,
    pub bytes_recv: u64,
    pub send_errors: u64,
    pub recv_errors: u64,
    pub mtu_exceeded: u64,
    pub kernel_drops: u64,
}

impl UdpStatsSnapshot {
    pub open spec fn zero() -> UdpStatsSnapshot {
        UdpStatsSnapshot {
            packets_sent: 0,
            bytes_sent: 0,
            packets_recv: 0,
            bytes_recv: 0,
            send_errors: 0,
            recv_errors: 0,
            mtu_exceeded: 0,
            kernel_drops: 0,
        }
    }

    /// The counters after a batch of packets was sent.
    pub open spec fn sent(self, packets: int, bytes: int) -> UdpStatsSnapshot {
        UdpStatsSnapshot {
            packets_sent: counted(self.packets_sent, packets) as u64,
            bytes_sent: counted(self.bytes_sent, bytes) as u64,
            ..self
        }
    }

    /// The counters after a packet was received.
    pub open spec fn received(self, bytes: int) -> UdpStatsSnapshot {
        UdpStatsSnapshot {
            packets_recv: counted(self.packets_recv, 1) as u64,
            bytes_recv: counted(self.bytes_recv, bytes) as u64,
            ..self
        }
    }

    /// The counters after a failed send.
    pub open spec fn send_failed(self) -> UdpStatsSnapshot {
        UdpStatsSnapshot { send_errors: counted(self.send_errors, 1) as u64, ..self }
    }

    /// The counters after a failed receive.
    pub open spec fn recv_failed(self) -> UdpStatsSnapshot {
        UdpStatsSnapshot { recv_errors: counted(self.recv_errors, 1) as u64, ..self }
    }

    /// The counters after a packet was refused for its size.
    pub open spec fn oversized(self) -> UdpStatsSnapshot {
        UdpStatsSnapshot { mtu_exceeded: counted(self.mtu_exceeded, 1) as u64, ..self }
    }
}

impl Default for UdpStatsSnapshot {
    fn default() -> (snapshot: UdpStatsSnapshot)
        ensures
            snapshot == UdpStatsSnapshot::zero(),
    {
        UdpStatsSnapshot {
            packets_sent: 0,
            bytes_sent: 0,
            packets_recv: 0,
            bytes_recv: 0,
            send_errors: 0,
            recv_errors: 0,
            mtu_exceeded: 0,
            kernel_drops: 0,
        }
    }
}

/// Statistics of a UDP transport.
pub struct UdpStats {
    counters: UdpStatsSnapshot,
}

impl View for UdpStats {
    type V = UdpStatsSnapshot;

    closed spec fn view(&self) -> UdpStatsSnapshot {
        self.counters
    }
}

impl UdpStats {
    /// Statistics with all counters at zero.
    pub fn new() -> (stats: UdpStats)
        ensures
            stats@ == UdpStatsSnapshot::zero(),
    {
        UdpStats { counters: UdpStatsSnapshot::default() }
    }

    /// Records a sent packet.
    pub fn record_send(&mut self, bytes: usize)
        ensures
            final(self)@ == old(self)@.sent(1, bytes as int),
    {
        self.record_send_batch(1, bytes);
    }

    /// Records a batch of sent packets.
    pub fn record_send_batch(&mut self, packets: usize, bytes: usize)
        ensures
            final(self)@ == old(self)@.sent(packets as int, bytes as int),
    {
        self.counters.packets_sent = count(self.counters.packets_sent, packets);
        self.counters.bytes_sent = count(self.counters.bytes_sent, bytes);
    }

    /// Records a received packet.
    pub fn record_recv(&mut self, bytes: usize)
        ensures
            final(self)@ == old(self)@.received(bytes as int),
    {
        self.counters.packets_recv = count(self.counters.packets_recv, 1);
        self.counters.bytes_recv = count(self.counters.bytes_recv, bytes);
    }

    /// Records a failed send.
    pub fn record_send_error(&mut self)
        ensures
            final(self)@ == old(self)@.send_failed(),
    {
        self.counters.send_errors = count(self.counters.send_errors, 1);
    }

    /// Records a failed receive.
    pub fn record_recv_error(&mut self)
        ensures
            final(self)@ == old(self)@.recv_failed(),
    {
        self.counters.recv_errors = count(self.counters.recv_errors, 1);
    }

    /// Records a packet that was refused for its size.
    pub fn record_mtu_exceeded(&mut self)
        ensures
            final(self)@ == old(self)@.oversized(),
    {
        self.counters.mtu_exceeded = count(self.counters.mtu_exceeded, 1);
    }

    /// Takes over the kernel's count of dropped packets.
    pub fn set_kernel_drops(&mut self, drops: u64)
        ensures
            final(self)@ == (UdpStatsSnapshot { kernel_drops: drops, ..old(self)@ }),
    {
        self.counters.kernel_drops = drops;
    }

    pub fn kernel_drops(&self) -> (drops: u64)
        ensures
            drops == self@.kernel_drops,
    {
        self.counters.kernel_drops
    }

    /// All counters at this point in time.
    pub fn snapshot(&self) -> (snapshot: UdpStatsSnapshot)
        ensures
            snapshot == self@,
    {
        self.counters
    }
}

impl Default for UdpStats {
    fn default() -> (stats: UdpStats)
        ensures
            stats@ == UdpStatsSnapshot::zero(),
    {
        UdpStats::new()
    }
}

/// A batch counts as much as its packets one by one.
pub proof fn batches_count_like_single_packets(
    stats: UdpStatsSnapshot,
    packets: nat,
    bytes: nat,
    last: nat,
)
    ensures
        stats.sent(packets as int, bytes as int).sent(1, last as int) == stats.sent(
            (packets + 1) as int,
            (bytes + last) as int,
        ),
{
    lemma_counted_twice(stats.packets_sent, packets as int, 1);
    lemma_counted_twice(stats.bytes_sent, bytes as int, last as int);
}

proof fn lemma_counted_twice(counter: u64, a: int, b: int)
    requires
        a >= 0,
        b >= 0,
    ensures
        0 <= counted(counter, a) <= u64::MAX,
        counted(counted(counter, a) as u64, b) == counted(counter, a + b),
{
    let m: int = 0x1_0000_0000_0000_0000;
    let first = (counter + a) % m;
    assert(0 <= first < m) by (nonlinear_arith)
        requires
            first == (counter + a) % m,
            m == 0x1_0000_0000_0000_0000,
    ;
    assert((first + b) % m == (counter + a + b) % m) by (nonlinear_arith)
        requires
            first == (counter + a) % m,
            m == 0x1_0000_0000_0000_0000,
    ;
}

/// Each event moves its own counters, by one and by its bytes, and no others.
pub proof fn counters_move_alone(stats: UdpStatsSnapshot, packets: nat, bytes: nat)
    requires
        packets + bytes < 0x8000_0000_0000_0000,
        stats.packets_sent < 0x8000_0000_0000_0000,
        stats.bytes_sent < 0x8000_0000_0000_0000,
        stats.packets_recv < 0x8000_0000_0000_0000,
        stats.bytes_recv < 0x8000_0000_0000_0000,
        stats.send_errors < 0x8000_0000_0000_0000,
        stats.recv_errors < 0x8000_0000_0000_0000,
        stats.mtu_exceeded < 0x8000_0000_0000_0000,
    ensures
        stats.sent(packets as int, bytes as int) == (UdpStatsSnapshot {
            packets_sent: (stats.packets_sent + packets) as u64,
            bytes_sent: (stats.bytes_sent + bytes) as u64,
            ..stats
        }),
        stats.received(bytes as int) == (UdpStatsSnapshot {
            packets_recv: (stats.packets_recv + 1) as u64,
            bytes_recv: (stats.bytes_recv + bytes) as u64,
            ..stats
        }),
        stats.send_failed() == (UdpStatsSnapshot {
            send_errors: (stats.send_errors + 1) as u64,
            ..stats
        }),
        stats.recv_failed() == (UdpStatsSnapshot {
            recv_errors: (stats.recv_errors + 1) as u64,
            ..stats
        }),
        stats.oversized() == (UdpStatsSnapshot {
            mtu_exceeded: (stats.mtu_exceeded + 1) as u64,
            ..stats
        }),
        UdpStatsSnapshot::zero().packets_sent == 0 && UdpStatsSnapshot::zero().bytes_sent == 0
            && UdpStatsSnapshot::zero().packets_recv == 0 && UdpStatsSnapshot::zero().bytes_recv
            == 0 && UdpStatsSnapshot::zero().send_errors == 0
            && UdpStatsSnapshot::zero().recv_errors == 0
            && UdpStatsSnapshot::zero().mtu_exceeded == 0
            && UdpStatsSnapshot::zero().kernel_drops == 0,
{
}

/// Nothing is counted at first.
pub proof fn counters_begin_at_nought()
    ensures
        ({
            let zero = UdpStatsSnapshot::zero();
            &&& zero.packets_sent == 0 && zero.bytes_sent == 0
            &&& zero.packets_recv == 0 && zero.bytes_recv == 0
            &&& zero.send_errors == 0 && zero.recv_errors == 0
            &&& zero.mtu_exceeded == 0 && zero.kernel_drops == 0
        }),
{
}

/// Counters go round: behind the largest value comes nought.
pub proof fn counters_go_round(counter: u64, n: u64)
    ensures
        counter + n <= 0xffff_ffff_ffff_ffff ==> counted(counter, n as int) == counter + n,
        counter + n > 0xffff_ffff_ffff_ffff ==> counted(counter, n as int) == counter + n
            - 0x1_0000_0000_0000_0000,
{
}

} // verus!
