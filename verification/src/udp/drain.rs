//! Draining the connected socket of one peer.
//!
//! Small packets are control traffic and go first. A fast path may take packets
//! over; the rest goes to the packet channel.

use vstd::prelude::*;
use crate::addr::{TransportAddr, TransportId};
use crate::udp::receive::{
    Packet, ReceivedPacket, begins_like_a_probe, is_punch_packet, packet_views,
    probes_are_known_by_their_first_bytes, punches,
};

verus! {

/// Bytes of a receive buffer of a connected socket.
pub const CONNECTED_UDP_RECV_BUF_SIZE: usize = 1600;

/// Bytes of the largest packet that counts as control traffic.
pub const CONNECTED_UDP_PRIORITY_MAX_LEN: usize = 512;

/// How often the kernel's drop count is read, in nanoseconds.
pub const KERNEL_DROP_SAMPLE_INTERVAL: u64 = 1_000_000_000;

// ---------------------------------------------------------------------------
// The drain loop
// ---------------------------------------------------------------------------

/// What a poll of the socket and the stop pipe returned.
#[derive(Clone, Copy, Debug, PartialEq, Eq, Structural)]
pub enum PollOutcome {
    Interrupted,
    Failed,
    Ready(PollEvents),
}

/// The events that a poll reported.
#[derive(Clone, Copy, Debug, PartialEq, Eq, Structural)]
pub struct PollEvents {
    /// The stop pipe has an event.
    pub stop_pipe: bool,
    /// The socket is not valid.
    pub invalid: bool,
    /// The socket hung up.
    pub hung_up: bool,
    /// The socket has an error.
    pub error: bool,
    /// The socket can be read.
    pub readable: bool,
}

/// What the drain loop does after a poll.
#[derive(Clone, Copy, Debug, PartialEq, Eq, Structural)]
pub enum DrainStep {
    PollAgain,
    Exit,
    /// The socket's error is taken from it, so that the next poll does not
    /// report it again. Then the socket is read, if it can be.
    TakeError { read: bool },
    Read,
}

/// The step after a poll. `stop` says whether the loop was asked to stop.
pub open spec fn step_after_poll(stop: bool, outcome: PollOutcome) -> DrainStep {
    match outcome {
        PollOutcome::Interrupted => DrainStep::PollAgain,
        PollOutcome::Failed => DrainStep::Exit,
        PollOutcome::Ready(events) => if (events.stop_pipe && stop) || events.invalid
            || events.hung_up {
            DrainStep::Exit
        } else if events.error {
            DrainStep::TakeError { read: events.readable }
        } else if events.readable {
            DrainStep::Read
        } else {
            DrainStep::PollAgain
        },
    }
}

pub fn after_poll(stop: bool, outcome: PollOutcome) -> (step: DrainStep)
    ensures
        step == step_after_poll(stop, outcome),
{
    match outcome {
        PollOutcome::Interrupted => DrainStep::PollAgain,
        PollOutcome::Failed => DrainStep::Exit,
        PollOutcome::Ready(events) => {
            if events.stop_pipe && stop {
                return DrainStep::Exit;
            }
            if events.invalid || events.hung_up {
                return DrainStep::Exit;
            }
            if events.error {
                return DrainStep::TakeError { read: events.readable };
            }
            if events.readable {
                DrainStep::Read
            } else {
                DrainStep::PollAgain
            }
        },
    }
}

/// What reading the socket returned.
#[derive(Clone, Copy, Debug, PartialEq, Eq, Structural)]
pub enum ReadOutcome {
    /// This many datagrams were read.
    Count(usize),
    WouldBlock,
    Failed,
}

/// What the drain loop does after reading the socket.
#[derive(Clone, Copy, Debug, PartialEq, Eq, Structural)]
pub enum AfterRead {
    Dispatch(usize),
    PollAgain,
    Exit,
}

pub fn after_read(outcome: ReadOutcome) -> (next: AfterRead)
    ensures
        next == (match outcome {
            ReadOutcome::Count(n) => AfterRead::Dispatch(n),
            ReadOutcome::WouldBlock => AfterRead::PollAgain,
            ReadOutcome::Failed => AfterRead::Exit,
        }),
{
    match outcome {
        ReadOutcome::Count(n) => AfterRead::Dispatch(n),
        ReadOutcome::WouldBlock => AfterRead::PollAgain,
        ReadOutcome::Failed => AfterRead::Exit,
    }
}

// ---------------------------------------------------------------------------
// Lanes
// ---------------------------------------------------------------------------

/// A datagram on its way to the packet channel.
#[derive(Debug)]
pub struct ConnectedUdpDrainPacket {
    pub data: Vec<u8>,
    pub timestamp_ms: u64,
}

/// Whether a datagram is delivered at all: an empty one is not, nor is a
/// hole-punching probe.
pub open spec fn drained(data: Seq<u8>) -> bool {
    data.len() > 0 && !punches(data)
}

/// Whether a datagram is delivered as control traffic.
pub open spec fn is_priority(data: Seq<u8>) -> bool {
    drained(data) && data.len() <= CONNECTED_UDP_PRIORITY_MAX_LEN
}

/// Whether a datagram is delivered after the control traffic.
pub open spec fn is_bulk(data: Seq<u8>) -> bool {
    drained(data) && data.len() > CONNECTED_UDP_PRIORITY_MAX_LEN
}

/// The bytes of datagrams as mathematical values.
pub open spec fn bytes_of(datagrams: Seq<Vec<u8>>) -> Seq<Seq<u8>> {
    datagrams.map_values(|d: Vec<u8>| d@)
}

/// The bytes of packets as mathematical values.
pub open spec fn drain_bytes(packets: Seq<ConnectedUdpDrainPacket>) -> Seq<Seq<u8>> {
    packets.map_values(|p: ConnectedUdpDrainPacket| p.data@)
}

/// The datagrams of the first `n` that are delivered as control traffic.
pub open spec fn priority_lane(datagrams: Seq<Seq<u8>>, n: nat) -> Seq<Seq<u8>>
    decreases n,
{
    if n == 0 {
        Seq::empty()
    } else {
        let before = priority_lane(datagrams, (n - 1) as nat);
        if is_priority(datagrams[n - 1]) {
            before.push(datagrams[n - 1])
        } else {
            before
        }
    }
}

/// The datagrams of the first `n` that are delivered after the control traffic.
pub open spec fn bulk_lane(datagrams: Seq<Seq<u8>>, n: nat) -> Seq<Seq<u8>>
    decreases n,
{
    if n == 0 {
        Seq::empty()
    } else {
        let before = bulk_lane(datagrams, (n - 1) as nat);
        if is_bulk(datagrams[n - 1]) {
            before.push(datagrams[n - 1])
        } else {
            before
        }
    }
}

/// The order in which datagrams that were read together are delivered: control
/// traffic first, each lane in the order of arrival.
pub open spec fn delivery_order(datagrams: Seq<Seq<u8>>) -> Seq<Seq<u8>> {
    priority_lane(datagrams, datagrams.len()) + bulk_lane(datagrams, datagrams.len())
}

/// Orders datagrams that were read together for delivery.
pub fn order_for_delivery(datagrams: Vec<Vec<u8>>, timestamp_ms: u64) -> (ready: Vec<
    ConnectedUdpDrainPacket,
>)
    ensures
        drain_bytes(ready@) == delivery_order(bytes_of(datagrams@)),
        forall|i: int| 0 <= i < ready@.len() ==> (#[trigger] ready@[i]).timestamp_ms == timestamp_ms,
{
    let ghost bytes = bytes_of(datagrams@);
    let mut rest = datagrams;
    let total: usize = rest.len();
    let mut ready: Vec<ConnectedUdpDrainPacket> = Vec::new();
    let mut bulk_packets: Vec<ConnectedUdpDrainPacket> = Vec::new();
    let mut i: usize = 0;
    assert(drain_bytes(ready@) =~= Seq::<Seq<u8>>::empty());
    assert(drain_bytes(bulk_packets@) =~= Seq::<Seq<u8>>::empty());
    while i < total
        invariant
            total == datagrams@.len(),
            total == rest@.len(),
            bytes == bytes_of(datagrams@),
            i <= total,
            forall|k: int| i <= k < total ==> #[trigger] rest@[k] == datagrams@[k],
            drain_bytes(ready@) == priority_lane(bytes, i as nat),
            drain_bytes(bulk_packets@) == bulk_lane(bytes, i as nat),
            forall|k: int|
                0 <= k < ready@.len() ==> (#[trigger] ready@[k]).timestamp_ms == timestamp_ms,
            forall|k: int|
                0 <= k < bulk_packets@.len() ==> (#[trigger] bulk_packets@[k]).timestamp_ms
                    == timestamp_ms,
        decreases total - i,
    {
        let mut data: Vec<u8> = Vec::new();
        std::mem::swap(&mut data, &mut rest[i]);
        assert(bytes[i as int] == data@);
        if data.len() > 0 && !is_punch_packet(data.as_slice()) {
            let ghost content = data@;
            if data.len() <= CONNECTED_UDP_PRIORITY_MAX_LEN {
                let ghost before = drain_bytes(ready@);
                ready.push(ConnectedUdpDrainPacket { data, timestamp_ms });
                assert(drain_bytes(ready@) =~= before.push(content));
            } else {
                let ghost before = drain_bytes(bulk_packets@);
                bulk_packets.push(ConnectedUdpDrainPacket { data, timestamp_ms });
                assert(drain_bytes(bulk_packets@) =~= before.push(content));
            }
        }
        i = i + 1;
    }
    let ghost first = ready@;
    let ghost second = bulk_packets@;
    ready.append(&mut bulk_packets);
    proof {
        assert(drain_bytes(ready@) =~= drain_bytes(first) + drain_bytes(second));
        assert forall|k: int| 0 <= k < ready@.len() implies (#[trigger] ready@[k]).timestamp_ms
            == timestamp_ms by {
            if k < first.len() {
                assert(ready@[k] == first[k]);
            } else {
                assert(ready@[k] == second[k - first.len()]);
            }
        }
    }
    ready
}

// ---------------------------------------------------------------------------
// Dispatch
// ---------------------------------------------------------------------------

/// Something that a fast path was asked to do.
pub enum FastPathEvent {
    /// It was offered a packet, and took it over or not.
    Offered { packet: Packet, taken: bool },
    /// It was told that all packets of a batch were offered.
    Flushed,
}

/// All that a fast path was asked to do so far, in order.
pub struct FastPathHistory {
    pub events: Seq<FastPathEvent>,
}

/// A consumer that may take packets over before they reach the packet channel.
pub trait ConnectedUdpPacketFastPathBatcher {
    spec fn history(&self) -> FastPathHistory;

    /// Takes a packet over, or gives its bytes back untouched.
    fn try_dispatch(
        &mut self,
        transport_id: TransportId,
        remote_addr: TransportAddr,
        packet_data: Vec<u8>,
        timestamp_ms: u64,
    ) -> (result: Result<(), Vec<u8>>)
        ensures
            final(self).history().events == old(self).history().events.push(
                FastPathEvent::Offered {
                    packet: Packet {
                        transport_id,
                        remote_addr: remote_addr@,
                        data: packet_data@,
                        timestamp_ms,
                    },
                    taken: result is Ok,
                },
            ),
            result matches Err(returned) ==> returned@ == packet_data@,
    ;

    /// All packets of a batch were offered.
    fn flush(&mut self)
        ensures
            final(self).history().events == old(self).history().events.push(
                FastPathEvent::Flushed,
            ),
    ;
}

/// Appends a packet to the batch for the packet channel, unless the fast path
/// took it over. `data` are the bytes to deliver where there is no fast path or
/// it gave them back.
pub fn keep_packet(
    data: Option<Vec<u8>>,
    transport_id: TransportId,
    packet_addr: &TransportAddr,
    timestamp_ms: u64,
    packets: &mut Vec<ReceivedPacket>,
)
    ensures
        packet_views(final(packets)@) == packet_views(old(packets)@) + (match data {
            Some(bytes) => seq![
                Packet {
                    transport_id,
                    remote_addr: packet_addr@,
                    data: bytes@,
                    timestamp_ms,
                },
            ],
            None => Seq::empty(),
        }),
{
    let ghost before = packet_views(packets@);
    match data {
        Some(bytes) => {
            let ghost content = bytes@;
            packets.push(
                ReceivedPacket {
                    transport_id,
                    remote_addr: packet_addr.clone(),
                    data: bytes,
                    timestamp_ms,
                },
            );
            assert(packet_views(packets@) =~= before + seq![
                Packet { transport_id, remote_addr: packet_addr@, data: content, timestamp_ms },
            ]);
        },
        None => {
            assert(before + Seq::<Packet>::empty() =~= before);
        },
    }
}

/// The packets that datagrams on their way become.
pub open spec fn plain_packets(
    ready: Seq<ConnectedUdpDrainPacket>,
    transport_id: TransportId,
    remote_addr: Seq<u8>,
) -> Seq<Packet> {
    ready.map_values(
        |p: ConnectedUdpDrainPacket|
            Packet { transport_id, remote_addr, data: p.data@, timestamp_ms: p.timestamp_ms },
    )
}

/// Those of the first `n` packets that were not taken over, in order.
pub open spec fn not_taken(packets: Seq<Packet>, taken: Seq<bool>, n: nat) -> Seq<Packet>
    decreases n,
{
    if n == 0 {
        Seq::empty()
    } else {
        let before = not_taken(packets, taken, (n - 1) as nat);
        if taken[n - 1] {
            before
        } else {
            before.push(packets[n - 1])
        }
    }
}

/// Packets that were offered in order, with the answers.
pub open spec fn offers(packets: Seq<Packet>, taken: Seq<bool>) -> Seq<FastPathEvent> {
    Seq::new(
        packets.len(),
        |i: int| FastPathEvent::Offered { packet: packets[i], taken: taken[i] },
    )
}

/// The answers to `n` packets that were offered after some history.
pub open spec fn answers(before: FastPathHistory, after: FastPathHistory, n: nat) -> Seq<bool> {
    Seq::new(
        n,
        |i: int|
            after.events[before.events.len() + i] matches FastPathEvent::Offered { taken, .. }
                && taken,
    )
}

/// Whether packets were dispatched past a fast path: each was offered, in order,
/// then the fast path was flushed, and what is kept is what it did not take over.
pub open spec fn dispatched(
    before: FastPathHistory,
    after: FastPathHistory,
    packets: Seq<Packet>,
    kept: Seq<Packet>,
) -> bool {
    let taken = answers(before, after, packets.len());
    &&& after.events == before.events + offers(packets, taken).push(FastPathEvent::Flushed)
    &&& kept == not_taken(packets, taken, packets.len())
}

/// Offers packets to the fast path in order, and returns those for the packet
/// channel: all that were not taken over.
fn dispatch_past<B: ConnectedUdpPacketFastPathBatcher>(
    ready_packets: Vec<ConnectedUdpDrainPacket>,
    transport_id: TransportId,
    packet_addr: &TransportAddr,
    batcher: &mut B,
) -> (packets: Vec<ReceivedPacket>)
    ensures
        dispatched(
            old(batcher).history(),
            final(batcher).history(),
            plain_packets(ready_packets@, transport_id, packet_addr@),
            packet_views(packets@),
        ),
{
    let ghost all = plain_packets(ready_packets@, transport_id, packet_addr@);
    let ghost first = batcher.history();
    let ghost mut taken: Seq<bool> = Seq::empty();
    let mut rest = ready_packets;
    let total: usize = rest.len();
    let mut packets: Vec<ReceivedPacket> = Vec::new();
    let mut i: usize = 0;
    assert(packet_views(packets@) =~= Seq::<Packet>::empty());
    assert(first.events + offers(all.take(0), taken) =~= first.events);
    while i < total
        invariant
            total == ready_packets@.len(),
            total == rest@.len(),
            all == plain_packets(ready_packets@, transport_id, packet_addr@),
            i <= total,
            forall|k: int| i <= k < total ==> #[trigger] rest@[k] == ready_packets@[k],
            batcher.history().events == first.events + offers(all.take(i as int), taken),
            taken.len() == i,
            packet_views(packets@) == not_taken(all, taken, i as nat),
        decreases total - i,
    {
        let timestamp_ms: u64 = rest[i].timestamp_ms;
        let mut data: Vec<u8> = Vec::new();
        std::mem::swap(&mut data, &mut rest[i].data);
        let kept = match batcher.try_dispatch(
            transport_id,
            packet_addr.clone(),
            data,
            timestamp_ms,
        ) {
            Ok(_) => None,
            Err(returned) => Some(returned),
        };
        let ghost was_taken = kept is None;
        keep_packet(kept, transport_id, packet_addr, timestamp_ms, &mut packets);
        proof {
            let more = taken.push(was_taken);
            lemma_not_taken_prefix(all, taken, more, i as nat);
            assert(batcher.history().events =~= first.events + offers(all.take(i + 1), more));
            assert(packet_views(packets@) =~= not_taken(all, more, (i + 1) as nat));
            taken = more;
        }
        i = i + 1;
    }
    batcher.flush();
    proof {
        assert(all.take(total as int) =~= all);
        assert(batcher.history().events =~= first.events + offers(all, taken).push(
            FastPathEvent::Flushed,
        ));
        assert forall|k: int| 0 <= k < total implies #[trigger] taken[k] == answers(
            first,
            batcher.history(),
            all.len(),
        )[k] by {
            assert(batcher.history().events[first.events.len() + k] == offers(all, taken)[k]);
        }
        assert(taken =~= answers(first, batcher.history(), all.len()));
    }
    packets
}

proof fn lemma_not_taken_prefix(packets: Seq<Packet>, a: Seq<bool>, b: Seq<bool>, n: nat)
    requires
        n <= a.len(),
        n <= b.len(),
        forall|i: int| 0 <= i < n ==> #[trigger] a[i] == b[i],
    ensures
        not_taken(packets, a, n) == not_taken(packets, b, n),
    decreases n,
{
    if n > 0 {
        lemma_not_taken_prefix(packets, a, b, (n - 1) as nat);
        assert(a[n - 1] == b[n - 1]);
    }
}

/// Offers packets to the fast path, if there is one, in order, flushes it, and
/// returns those for the packet channel: all that were not taken over.
pub fn dispatch_ready_packets<B: ConnectedUdpPacketFastPathBatcher>(
    ready_packets: Vec<ConnectedUdpDrainPacket>,
    transport_id: TransportId,
    packet_addr: &TransportAddr,
    fast_path: Option<&mut B>,
) -> (packets: Vec<ReceivedPacket>)
    ensures
        match fast_path {
            None => packet_views(packets@) == plain_packets(
                ready_packets@,
                transport_id,
                packet_addr@,
            ),
            Some(batcher) => dispatched(
                batcher.history(),
                final(batcher).history(),
                plain_packets(ready_packets@, transport_id, packet_addr@),
                packet_views(packets@),
            ),
        },
{
    match fast_path {
        Some(batcher) => dispatch_past(ready_packets, transport_id, packet_addr, batcher),
        None => {
            let ghost all = plain_packets(ready_packets@, transport_id, packet_addr@);
            let mut rest = ready_packets;
            let total: usize = rest.len();
            let mut packets: Vec<ReceivedPacket> = Vec::new();
            let mut i: usize = 0;
            assert(packet_views(packets@) =~= all.take(0));
            while i < total
                invariant
                    total == ready_packets@.len(),
                    total == rest@.len(),
                    all == plain_packets(ready_packets@, transport_id, packet_addr@),
                    i <= total,
                    forall|k: int| i <= k < total ==> #[trigger] rest@[k] == ready_packets@[k],
                    packet_views(packets@) == all.take(i as int),
                decreases total - i,
            {
                let timestamp_ms: u64 = rest[i].timestamp_ms;
                let mut data: Vec<u8> = Vec::new();
                std::mem::swap(&mut data, &mut rest[i].data);
                keep_packet(Some(data), transport_id, packet_addr, timestamp_ms, &mut packets);
                i = i + 1;
                assert(packet_views(packets@) =~= all.take(i as int));
            }
            assert(all.take(total as int) =~= all);
            packets
        },
    }
}

// ---------------------------------------------------------------------------
// Kernel drops
// ---------------------------------------------------------------------------

/// Reads the kernel's count of dropped datagrams now and then. A kernel that
/// does not give the count once is not asked again. Times are readings of the
/// monotonic clock in nanoseconds.
#[derive(Debug)]
pub struct ConnectedUdpKernelDropSampler {
    pub last_sample: u64,
    pub last_drops: u32,
    pub supported: bool,
}

impl ConnectedUdpKernelDropSampler {
    /// A sampler that begins with the given count.
    pub fn new(count: Option<u32>, now: u64) -> (sampler: ConnectedUdpKernelDropSampler)
        ensures
            sampler.last_sample == now,
            sampler.supported == count is Some,
            sampler.last_drops == (match count {
                Some(drops) => drops,
                None => 0,
            }),
    {
        match count {
            Some(drops) => ConnectedUdpKernelDropSampler {
                last_sample: now,
                last_drops: drops,
                supported: true,
            },
            None => ConnectedUdpKernelDropSampler {
                last_sample: now,
                last_drops: 0,
                supported: false,
            },
        }
    }

    /// Whether the count is to be read.
    pub open spec fn spec_due(self, now: u64) -> bool {
        self.supported && now - self.last_sample >= KERNEL_DROP_SAMPLE_INTERVAL
    }

    pub fn due(&self, now: u64) -> (yes: bool)
        ensures
            yes == self.spec_due(now),
    {
        self.supported && now.saturating_sub(self.last_sample) >= KERNEL_DROP_SAMPLE_INTERVAL
    }

    /// Takes a reading over: the drops since the last one. The kernel's counter
    /// wraps around.
    pub fn sample(&mut self, count: Option<u32>, now: u64) -> (delta: Option<u64>)
        requires
            old(self).spec_due(now),
        ensures
            final(self).last_sample == now,
            match count {
                Some(drops) => {
                    &&& final(self).supported
                    &&& final(self).last_drops == drops
                    &&& delta == Some(
                        (if drops >= old(self).last_drops {
                            drops - old(self).last_drops
                        } else {
                            drops - old(self).last_drops + 0x1_0000_0000
                        }) as u64,
                    )
                },
                None => {
                    &&& !final(self).supported
                    &&& final(self).last_drops == old(self).last_drops
                    &&& delta is None
                },
            },
    {
        self.last_sample = now;
        match count {
            Some(drops) => {
                let delta: u32 = drops.wrapping_sub(self.last_drops);
                self.last_drops = drops;
                Some(delta as u64)
            },
            None => {
                self.supported = false;
                None
            },
        }
    }
}

// ---------------------------------------------------------------------------
// Laws
// ---------------------------------------------------------------------------

proof fn lemma_lane_members(datagrams: Seq<Seq<u8>>, n: nat)
    requires
        n <= datagrams.len(),
    ensures
        forall|i: int|
            0 <= i < priority_lane(datagrams, n).len() ==> is_priority(
                #[trigger] priority_lane(datagrams, n)[i],
            ),
        forall|i: int|
            0 <= i < bulk_lane(datagrams, n).len() ==> is_bulk(
                #[trigger] bulk_lane(datagrams, n)[i],
            ),
        forall|i: int|
            0 <= i < n && is_priority(#[trigger] datagrams[i]) ==> priority_lane(
                datagrams,
                n,
            ).contains(datagrams[i]),
        forall|i: int|
            0 <= i < n && is_bulk(#[trigger] datagrams[i]) ==> bulk_lane(datagrams, n).contains(
                datagrams[i],
            ),
    decreases n,
{
    if n > 0 {
        let m = (n - 1) as nat;
        lemma_lane_members(datagrams, m);
        assert forall|i: int|
            0 <= i < n && is_priority(#[trigger] datagrams[i]) implies priority_lane(
            datagrams,
            n,
        ).contains(datagrams[i]) by {
            let lane = priority_lane(datagrams, n);
            if i < m {
                let k = choose|k: int|
                    0 <= k < priority_lane(datagrams, m).len() && priority_lane(datagrams, m)[k]
                        == datagrams[i];
                assert(lane[k] == datagrams[i]);
            } else {
                assert(lane[lane.len() - 1] == datagrams[i]);
            }
        }
        assert forall|i: int|
            0 <= i < n && is_bulk(#[trigger] datagrams[i]) implies bulk_lane(
            datagrams,
            n,
        ).contains(datagrams[i]) by {
            let lane = bulk_lane(datagrams, n);
            if i < m {
                let k = choose|k: int|
                    0 <= k < bulk_lane(datagrams, m).len() && bulk_lane(datagrams, m)[k]
                        == datagrams[i];
                assert(lane[k] == datagrams[i]);
            } else {
                assert(lane[lane.len() - 1] == datagrams[i]);
            }
        }
    }
}

/// No bulk packet is delivered before a control packet of the same batch.
pub proof fn control_traffic_goes_first(datagrams: Seq<Seq<u8>>, i: int, j: int)
    requires
        0 <= i < delivery_order(datagrams).len(),
        0 <= j < delivery_order(datagrams).len(),
        is_bulk(delivery_order(datagrams)[i]),
        is_priority(delivery_order(datagrams)[j]),
    ensures
        j < i,
{
    lemma_lane_members(datagrams, datagrams.len());
    let lane = priority_lane(datagrams, datagrams.len());
    let bulk = bulk_lane(datagrams, datagrams.len());
    if i < lane.len() {
        assert(delivery_order(datagrams)[i] == lane[i]);
    }
    if j >= lane.len() {
        assert(delivery_order(datagrams)[j] == bulk[j - lane.len()]);
    }
}

/// Everything that is to be delivered is delivered, and nothing else.
pub proof fn delivery_is_complete(datagrams: Seq<Seq<u8>>, i: int)
    requires
        0 <= i < datagrams.len(),
    ensures
        drained(datagrams[i]) ==> delivery_order(datagrams).contains(datagrams[i]),
        forall|k: int|
            0 <= k < delivery_order(datagrams).len() ==> drained(
                #[trigger] delivery_order(datagrams)[k],
            ),
{
    lemma_lane_members(datagrams, datagrams.len());
    let lane = priority_lane(datagrams, datagrams.len());
    let bulk = bulk_lane(datagrams, datagrams.len());
    let all = delivery_order(datagrams);
    if is_priority(datagrams[i]) {
        let k = choose|k: int| 0 <= k < lane.len() && lane[k] == datagrams[i];
        assert(all[k] == datagrams[i]);
    } else if is_bulk(datagrams[i]) {
        let k = choose|k: int| 0 <= k < bulk.len() && bulk[k] == datagrams[i];
        assert(all[lane.len() + k] == datagrams[i]);
    }
    assert forall|k: int| 0 <= k < all.len() implies drained(#[trigger] all[k]) by {
        if k < lane.len() {
            assert(all[k] == lane[k]);
        } else {
            assert(all[k] == bulk[k - lane.len()]);
        }
    }
}

/// A packet is kept or taken over, never lost and never both: with the packets
/// that are kept, those that were taken over add up to all.
pub proof fn packets_are_kept_or_taken(packets: Seq<Packet>, taken: Seq<bool>, n: nat)
    requires
        n <= packets.len(),
        taken.len() == packets.len(),
    ensures
        not_taken(packets, taken, n).len() + taken.take(n as int).filter(
            |t: bool| t,
        ).len() == n,
        forall|i: int|
            0 <= i < n && !taken[i] ==> not_taken(packets, taken, n).contains(
                #[trigger] packets[i],
            ),
    decreases n,
{
    reveal(Seq::filter);
    if n > 0 {
        packets_are_kept_or_taken(packets, taken, (n - 1) as nat);
        let before = not_taken(packets, taken, (n - 1) as nat);
        let kept = not_taken(packets, taken, n);
        assert(taken.take(n as int).drop_last() =~= taken.take(n - 1));
        assert forall|i: int| 0 <= i < n && !taken[i] implies kept.contains(
            #[trigger] packets[i],
        ) by {
            if i < n - 1 {
                let k = choose|k: int| 0 <= k < before.len() && before[k] == packets[i];
                assert(kept[k] == packets[i]);
            } else {
                assert(kept.last() == packets[i]);
            }
        }
    } else {
        assert(taken.take(0) =~= Seq::<bool>::empty());
    }
}

/// A drain loop that was asked to stop and sees the stop pipe ends, whatever
/// else the poll reported.
pub proof fn stop_request_ends_the_loop(events: PollEvents)
    requires
        events.stop_pipe,
    ensures
        step_after_poll(true, PollOutcome::Ready(events)) == DrainStep::Exit,
{
}

/// Datagrams are delivered lane by lane, each lane in the order of arrival: first
/// the control traffic, of up to 512 bytes, then the rest. Probes and empty
/// datagrams are in neither lane.
pub proof fn lanes_keep_the_order_of_arrival(datagrams: Seq<Seq<u8>>)
    ensures
        delivery_order(datagrams) == datagrams.filter(
            |d: Seq<u8>| 0 < d.len() <= 512 && !begins_like_a_probe(d),
        ) + datagrams.filter(|d: Seq<u8>| d.len() > 512 && !begins_like_a_probe(d)),
{
    lemma_lanes_filter(datagrams, datagrams.len());
    assert(datagrams.take(datagrams.len() as int) =~= datagrams);
}

proof fn lemma_lanes_filter(datagrams: Seq<Seq<u8>>, n: nat)
    requires
        n <= datagrams.len(),
    ensures
        priority_lane(datagrams, n) == datagrams.take(n as int).filter(
            |d: Seq<u8>| 0 < d.len() <= 512 && !begins_like_a_probe(d),
        ),
        bulk_lane(datagrams, n) == datagrams.take(n as int).filter(
            |d: Seq<u8>| d.len() > 512 && !begins_like_a_probe(d),
        ),
    decreases n,
{
    reveal(Seq::filter);
    if n > 0 {
        lemma_lanes_filter(datagrams, (n - 1) as nat);
        let all = datagrams.take(n as int);
        assert(all.drop_last() =~= datagrams.take(n - 1));
        assert(all.last() == datagrams[n - 1]);
        probes_are_known_by_their_first_bytes(datagrams[n - 1]);
    }
}

/// A packet has the bytes and the time of its datagram, and the address of the
/// socket's peer.
pub proof fn packets_hold_their_datagrams(
    ready: Seq<ConnectedUdpDrainPacket>,
    transport_id: TransportId,
    remote_addr: Seq<u8>,
    i: int,
)
    requires
        0 <= i < ready.len(),
    ensures
        plain_packets(ready, transport_id, remote_addr).len() == ready.len(),
        plain_packets(ready, transport_id, remote_addr)[i] == (Packet {
            transport_id,
            remote_addr,
            data: ready[i].data@,
            timestamp_ms: ready[i].timestamp_ms,
        }),
{
}

proof fn lemma_not_taken_filter(packets: Seq<Packet>, taken: Seq<bool>, n: nat)
    requires
        n <= packets.len(),
        taken.len() == packets.len(),
    ensures
        not_taken(packets, taken, n) == packets.zip_with(taken).take(n as int).filter(
            |p: (Packet, bool)| !p.1,
        ).map_values(|p: (Packet, bool)| p.0),
    decreases n,
{
    reveal(Seq::filter);
    let pairs = packets.zip_with(taken);
    let left = |p: (Packet, bool)| !p.1;
    let first = |p: (Packet, bool)| p.0;
    if n > 0 {
        lemma_not_taken_filter(packets, taken, (n - 1) as nat);
        let all = pairs.take(n as int);
        assert(all.drop_last() =~= pairs.take(n - 1));
        assert(all.last() == (packets[n - 1], taken[n - 1]));
        let before = pairs.take(n - 1).filter(left);
        assert(before.push((packets[n - 1], taken[n - 1])).map_values(first)
            =~= before.map_values(first).push(packets[n - 1]));
    } else {
        assert(pairs.take(0).filter(left).map_values(first) =~= Seq::<Packet>::empty());
    }
}

/// What is kept of packets that were dispatched past a fast path: each packet was
/// offered once, in order, then the fast path was flushed once, and exactly the
/// packets that it did not take over are kept, in order.
pub proof fn fast_path_answers_decide(
    before: FastPathHistory,
    after: FastPathHistory,
    packets: Seq<Packet>,
    kept: Seq<Packet>,
)
    requires
        dispatched(before, after, packets, kept),
    ensures
        exists|taken: Seq<bool>|
            {
                &&& taken.len() == packets.len()
                &&& after.events.len() == before.events.len() + packets.len() + 1
                &&& after.events.take(before.events.len() as int) == before.events
                &&& forall|i: int|
                    0 <= i < packets.len() ==> #[trigger] after.events[before.events.len() + i]
                        == (FastPathEvent::Offered { packet: packets[i], taken: taken[i] })
                &&& after.events.last() == FastPathEvent::Flushed
                &&& kept == (#[trigger] packets.zip_with(taken)).filter(
                    |p: (Packet, bool)| !p.1,
                ).map_values(|p: (Packet, bool)| p.0)
            },
{
    let taken = answers(before, after, packets.len());
    let more = offers(packets, taken).push(FastPathEvent::Flushed);
    assert(after.events == before.events + more);
    assert(after.events.take(before.events.len() as int) =~= before.events);
    assert forall|i: int| 0 <= i < packets.len() implies #[trigger] after.events[before.events.len()
        + i] == (FastPathEvent::Offered { packet: packets[i], taken: taken[i] }) by {
        assert(more[i] == offers(packets, taken)[i]);
    }
    assert(after.events.last() == more.last());
    lemma_not_taken_filter(packets, taken, packets.len());
    assert(packets.zip_with(taken).take(packets.len() as int) =~= packets.zip_with(taken));
}

/// What the drain loop does after a poll: it reads where there is something to
/// read, takes an error off the socket first, ends with the socket, and is not
/// disturbed by a signal or by a stop pipe without a stop request.
pub proof fn polls_lead_to_reads(stop: bool, events: PollEvents)
    ensures
        step_after_poll(stop, PollOutcome::Interrupted) is PollAgain,
        step_after_poll(stop, PollOutcome::Failed) is Exit,
        events.invalid || events.hung_up ==> step_after_poll(stop, PollOutcome::Ready(events))
            is Exit,
        !(stop && events.stop_pipe) && !events.invalid && !events.hung_up ==> {
            let step = step_after_poll(stop, PollOutcome::Ready(events));
            &&& events.error ==> step == (DrainStep::TakeError { read: events.readable })
            &&& !events.error && events.readable ==> step is Read
            &&& !events.error && !events.readable ==> step is PollAgain
        },
{
}

/// The kernel's drop count is read once a second, where it can be read at all.
pub proof fn drop_counts_are_read_once_a_second(sampler: ConnectedUdpKernelDropSampler, now: u64)
    ensures
        sampler.spec_due(now) <==> sampler.supported && now >= sampler.last_sample + 1_000_000_000,
{
}

/// The bytes of a list of datagrams or packets are those of its entries, in order.
pub proof fn bytes_are_in_order(
    datagrams: Seq<Vec<u8>>,
    packets: Seq<ConnectedUdpDrainPacket>,
    i: int,
)
    ensures
        bytes_of(datagrams).len() == datagrams.len(),
        0 <= i < datagrams.len() ==> bytes_of(datagrams)[i] == datagrams[i]@,
        drain_bytes(packets).len() == packets.len(),
        0 <= i < packets.len() ==> drain_bytes(packets)[i] == packets[i].data@,
{
}

} // verus!
