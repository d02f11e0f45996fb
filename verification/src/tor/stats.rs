//! Tor transport statistics.

use vstd::prelude::*;

verus! {

/// Counters of a Tor transport at one point in time.
#[derive(Clone, Copy, Debug, PartialEq, Eq, Structural)]
pub struct TorStatsSnapshot {
    pub packets_sent: u64,
    pub bytes_sent: u64,
    pub packets_recv: u64,
    pub bytes_recv: u64,
    pub send_errors: u64,
    pub recv_errors: u64,
    pub mtu_exceeded: u64,
    pub socks5_errors: u64,
    pub connect_timeouts: u64,
    pub control_errors: u64,
    pub connections_established: u64,
    pub connections_accepted: u64,
    pub connections_rejected: u64,
    /// Pooled connections that peers began.
    pub pool_inbound: u64,
    /// Pooled connections that this side began.
    pub pool_outbound: u64,
}

/// Which side began a connection.
#[derive(Clone, Copy, Debug, PartialEq, Eq, Structural)]
pub enum Direction {
    Inbound,
    Outbound,
}

/// A counter after `n` more events. Counters wrap around.
pub open spec fn raised(counter: u64, n: int) -> u64 {
    ((counter + n) % 0x1_0000_0000_0000_0000) as u64
}

/// A gauge after one event less.
pub open spec fn lowered(gauge: u64) -> u64 {
    if gauge == 0 {
        u64::MAX
    } else {
        (gauge - 1) as u64
    }
}

fn raise(counter: u64, n: u64) -> (next: u64)
    ensures
        next == raised(counter, n as int),
{
    counter.wrapping_add(n)
}

fn lower(gauge: u64) -> (next: u64)
    ensures
        next == lowered(gauge),
{
    gauge.wrapping_sub(1)
}

impl TorStatsSnapshot {
    pub open spec fn zero() -> TorStatsSnapshot {
        TorStatsSnapshot {
            packets_sent: 0,
            bytes_sent: 0,
            packets_recv: 0,
            bytes_recv: 0,
            send_errors: 0,
            recv_errors: 0,
            mtu_exceeded: 0,
            socks5_errors: 0,
            connect_timeouts: 0,
            control_errors: 0,
            connections_established: 0,
            connections_accepted: 0,
            connections_rejected: 0,
            pool_inbound: 0,
            pool_outbound: 0,
        }
    }

    pub open spec fn sent(self, bytes: int) -> TorStatsSnapshot {
        TorStatsSnapshot {
            packets_sent: raised(self.packets_sent, 1),
            bytes_sent: raised(self.bytes_sent, bytes),
            ..self
        }
    }

    pub open spec fn received(self, bytes: int) -> TorStatsSnapshot {
        TorStatsSnapshot {
            packets_recv: raised(self.packets_recv, 1),
            bytes_recv: raised(self.bytes_recv, bytes),
            ..self
        }
    }

    pub open spec fn send_failed(self) -> TorStatsSnapshot {
        TorStatsSnapshot { send_errors: raised(self.send_errors, 1), ..self }
    }

    pub open spec fn recv_failed(self) -> TorStatsSnapshot {
        TorStatsSnapshot { recv_errors: raised(self.recv_errors, 1), ..self }
    }

    pub open spec fn oversized(self) -> TorStatsSnapshot {
        TorStatsSnapshot { mtu_exceeded: raised(self.mtu_exceeded, 1), ..self }
    }

    pub open spec fn proxy_failed(self) -> TorStatsSnapshot {
        TorStatsSnapshot { socks5_errors: raised(self.socks5_errors, 1), ..self }
    }

    pub open spec fn timed_out(self) -> TorStatsSnapshot {
        TorStatsSnapshot { connect_timeouts: raised(self.connect_timeouts, 1), ..self }
    }

    pub open spec fn control_failed(self) -> TorStatsSnapshot {
        TorStatsSnapshot { control_errors: raised(self.control_errors, 1), ..self }
    }

    pub open spec fn rejected(self) -> TorStatsSnapshot {
        TorStatsSnapshot { connections_rejected: raised(self.connections_rejected, 1), ..self }
    }

    /// The counters after a connection was pooled.
    pub open spec fn pooled(self, direction: Direction) -> TorStatsSnapshot {
        match direction {
            Direction::Inbound => TorStatsSnapshot {
                connections_accepted: raised(self.connections_accepted, 1),
                pool_inbound: raised(self.pool_inbound, 1),
                ..self
            },
            Direction::Outbound => TorStatsSnapshot {
                connections_established: raised(self.connections_established, 1),
                pool_outbound: raised(self.pool_outbound, 1),
                ..self
            },
        }
    }

    /// The counters after a connection left the pool.
    pub open spec fn unpooled(self, direction: Direction) -> TorStatsSnapshot {
        match direction {
            Direction::Inbound => TorStatsSnapshot {
                pool_inbound: lowered(self.pool_inbound),
                ..self
            },
            Direction::Outbound => TorStatsSnapshot {
                pool_outbound: lowered(self.pool_outbound),
                ..self
            },
        }
    }
}

/// Statistics of a Tor transport.
pub struct TorStats {
    counters: TorStatsSnapshot,
}

impl View for TorStats {
    type V = TorStatsSnapshot;

    closed spec fn view(&self) -> TorStatsSnapshot {
        self.counters
    }
}

impl TorStats {
    /// Statistics with all counters at zero.
    pub fn new() -> (stats: TorStats)
        ensures
            stats@ == TorStatsSnapshot::zero(),
    {
        TorStats {
            counters: TorStatsSnapshot {
                packets_sent: 0,
                bytes_sent: 0,
                packets_recv: 0,
                bytes_recv: 0,
                send_errors: 0,
                recv_errors: 0,
                mtu_exceeded: 0,
                socks5_errors: 0,
                connect_timeouts: 0,
                control_errors: 0,
                connections_established: 0,
                connections_accepted: 0,
                connections_rejected: 0,
                pool_inbound: 0,
                pool_outbound: 0,
            },
        }
    }

    pub fn record_send(&mut self, bytes: usize)
        ensures
            final(self)@ == old(self)@.sent(bytes as int),
    {
        self.counters.packets_sent = raise(self.counters.packets_sent, 1);
        self.counters.bytes_sent = raise(self.counters.bytes_sent, bytes as u64);
    }

    pub fn record_recv(&mut self, bytes: usize)
        ensures
            final(self)@ == old(self)@.received(bytes as int),
    {
        self.counters.packets_recv = raise(self.counters.packets_recv, 1);
        self.counters.bytes_recv = raise(self.counters.bytes_recv, bytes as u64);
    }

    pub fn record_send_error(&mut self)
        ensures
            final(self)@ == old(self)@.send_failed(),
    {
        self.counters.send_errors = raise(self.counters.send_errors, 1);
    }

    pub fn record_recv_error(&mut self)
        ensures
            final(self)@ == old(self)@.recv_failed(),
    {
        self.counters.recv_errors = raise(self.counters.recv_errors, 1);
    }

    pub fn record_mtu_exceeded(&mut self)
        ensures
            final(self)@ == old(self)@.oversized(),
    {
        self.counters.mtu_exceeded = raise(self.counters.mtu_exceeded, 1);
    }

    pub fn record_socks5_error(&mut self)
        ensures
            final(self)@ == old(self)@.proxy_failed(),
    {
        self.counters.socks5_errors = raise(self.counters.socks5_errors, 1);
    }

    pub fn record_connect_timeout(&mut self)
        ensures
            final(self)@ == old(self)@.timed_out(),
    {
        self.counters.connect_timeouts = raise(self.counters.connect_timeouts, 1);
    }

    pub fn record_control_error(&mut self)
        ensures
            final(self)@ == old(self)@.control_failed(),
    {
        self.counters.control_errors = raise(self.counters.control_errors, 1);
    }

    pub fn record_connection_rejected(&mut self)
        ensures
            final(self)@ == old(self)@.rejected(),
    {
        self.counters.connections_rejected = raise(self.counters.connections_rejected, 1);
    }

    /// Records a connection that was pooled.
    pub fn record_pooled(&mut self, direction: Direction)
        ensures
            final(self)@ == old(self)@.pooled(direction),
    {
        match direction {
            Direction::Inbound => {
                self.counters.connections_accepted = raise(self.counters.connections_accepted, 1);
                self.counters.pool_inbound = raise(self.counters.pool_inbound, 1);
            },
            Direction::Outbound => {
                self.counters.connections_established = raise(
                    self.counters.connections_established,
                    1,
                );
                self.counters.pool_outbound = raise(self.counters.pool_outbound, 1);
            },
        }
    }

    /// Records a connection that left the pool.
    pub fn record_unpooled(&mut self, direction: Direction)
        ensures
            final(self)@ == old(self)@.unpooled(direction),
    {
        match direction {
            Direction::Inbound => {
                self.counters.pool_inbound = lower(self.counters.pool_inbound);
            },
            Direction::Outbound => {
                self.counters.pool_outbound = lower(self.counters.pool_outbound);
            },
        }
    }

    /// Pooled connections that peers began.
    pub fn pool_inbound_count(&self) -> (n: u64)
        ensures
            n == self@.pool_inbound,
    {
        self.counters.pool_inbound
    }

    /// All counters at this point in time.
    pub fn snapshot(&self) -> (snapshot: TorStatsSnapshot)
        ensures
            snapshot == self@,
    {
        self.counters
    }
}

/// A connection that is pooled and leaves the pool again leaves the gauges as
/// they were.
pub proof fn pooling_and_unpooling_cancel(stats: TorStatsSnapshot, direction: Direction)
    ensures
        stats.pooled(direction).unpooled(direction).pool_inbound == stats.pool_inbound,
        stats.pooled(direction).unpooled(direction).pool_outbound == stats.pool_outbound,
{
}

/// Each event moves its own counters by one, and its bytes, and no others.
pub proof fn counters_move_alone(stats: TorStatsSnapshot, bytes: nat)
    requires
        bytes < 0x8000_0000_0000_0000,
        stats.packets_sent < 0x8000_0000_0000_0000,
        stats.bytes_sent < 0x8000_0000_0000_0000,
        stats.packets_recv < 0x8000_0000_0000_0000,
        stats.bytes_recv < 0x8000_0000_0000_0000,
        stats.send_errors < 0x8000_0000_0000_0000,
        stats.recv_errors < 0x8000_0000_0000_0000,
        stats.mtu_exceeded < 0x8000_0000_0000_0000,
        stats.socks5_errors < 0x8000_0000_0000_0000,
        stats.connect_timeouts < 0x8000_0000_0000_0000,
        stats.control_errors < 0x8000_0000_0000_0000,
        stats.connections_rejected < 0x8000_0000_0000_0000,
    ensures
        stats.sent(bytes as int) == (TorStatsSnapshot {
            packets_sent: (stats.packets_sent + 1) as u64,
            bytes_sent: (stats.bytes_sent + bytes) as u64,
            ..stats
        }),
        stats.received(bytes as int) == (TorStatsSnapshot {
            packets_recv: (stats.packets_recv + 1) as u64,
            bytes_recv: (stats.bytes_recv + bytes) as u64,
            ..stats
        }),
        stats.send_failed() == (TorStatsSnapshot {
            send_errors: (stats.send_errors + 1) as u64,
            ..stats
        }),
        stats.recv_failed() == (TorStatsSnapshot {
            recv_errors: (stats.recv_errors + 1) as u64,
            ..stats
        }),
        stats.oversized() == (TorStatsSnapshot {
            mtu_exceeded: (stats.mtu_exceeded + 1) as u64,
            ..stats
        }),
        stats.proxy_failed() == (TorStatsSnapshot {
            socks5_errors: (stats.socks5_errors + 1) as u64,
            ..stats
        }),
        stats.timed_out() == (TorStatsSnapshot {
            connect_timeouts: (stats.connect_timeouts + 1) as u64,
            ..stats
        }),
        stats.control_failed() == (TorStatsSnapshot {
            control_errors: (stats.control_errors + 1) as u64,
            ..stats
        }),
        stats.rejected() == (TorStatsSnapshot {
            connections_rejected: (stats.connections_rejected + 1) as u64,
            ..stats
        }),
{
}

/// A connection counts in its own direction only: one that a peer began as accepted,
/// one that this side began as established.
pub proof fn directions_are_counted_apart(stats: TorStatsSnapshot)
    requires
        stats.connections_established < 0x8000_0000_0000_0000,
        stats.connections_accepted < 0x8000_0000_0000_0000,
        stats.pool_inbound < 0x8000_0000_0000_0000,
        stats.pool_outbound < 0x8000_0000_0000_0000,
    ensures
        stats.pooled(Direction::Inbound) == (TorStatsSnapshot {
            connections_accepted: (stats.connections_accepted + 1) as u64,
            pool_inbound: (stats.pool_inbound + 1) as u64,
            ..stats
        }),
        stats.pooled(Direction::Outbound) == (TorStatsSnapshot {
            connections_established: (stats.connections_established + 1) as u64,
            pool_outbound: (stats.pool_outbound + 1) as u64,
            ..stats
        }),
        stats.pool_inbound > 0 ==> stats.unpooled(Direction::Inbound) == (TorStatsSnapshot {
            pool_inbound: (stats.pool_inbound - 1) as u64,
            ..stats
        }),
        stats.pool_outbound > 0 ==> stats.unpooled(Direction::Outbound) == (TorStatsSnapshot {
            pool_outbound: (stats.pool_outbound - 1) as u64,
            ..stats
        }),
{
}

/// Nothing is counted at first.
pub proof fn counters_begin_at_nought()
    ensures
        ({
            let zero = TorStatsSnapshot::zero();
            &&& zero.packets_sent == 0 && zero.bytes_sent == 0
            &&& zero.packets_recv == 0 && zero.bytes_recv == 0
            &&& zero.send_errors == 0 && zero.recv_errors == 0 && zero.mtu_exceeded == 0
            &&& zero.socks5_errors == 0 && zero.connect_timeouts == 0 && zero.control_errors == 0
            &&& zero.connections_established == 0 && zero.connections_accepted == 0
            &&& zero.connections_rejected == 0
            &&& zero.pool_inbound == 0 && zero.pool_outbound == 0
        }),
{
}

/// Counters and gauges go round: behind the largest value comes nought, and before
/// nought the largest value.
pub proof fn counters_go_round(counter: u64, n: u64)
    ensures
        counter + n <= 0xffff_ffff_ffff_ffff ==> raised(counter, n as int) == counter + n,
        counter + n > 0xffff_ffff_ffff_ffff ==> raised(counter, n as int) == counter + n
            - 0x1_0000_0000_0000_0000,
        counter > 0 ==> lowered(counter) == counter - 1,
        counter == 0 ==> lowered(counter) == 0xffff_ffff_ffff_ffff,
        lowered(raised(counter, 1)) == counter,
{
}

} // verus!
