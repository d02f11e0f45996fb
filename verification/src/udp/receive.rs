//! Received datagrams: from the slots of a batched receive to packets.

use vstd::prelude::*;
use vstd::utf8::encode_utf8;
use crate::addr::{SocketAddr, TransportAddr, TransportId, socket_addr_text};
use crate::decimal::{decimal_text, push_decimal};
use crate::udp::stats::{UdpStats, UdpStatsSnapshot};

verus! {

/// Datagrams of one batched receive.
pub const UDP_RECV_BATCH_SIZE: usize = 128;

/// Bytes that a receive buffer has beyond the largest packet.
pub const UDP_RECV_BUFFER_SLACK: usize = 100;

/// Bytes of a receive buffer for coalesced datagrams.
pub const UDP_GRO_RECV_BUFFER_SIZE: usize = 65_535;

/// Sources whose transport address is remembered.
pub const UDP_ADDR_CACHE_CAP: usize = 16;

/// A received packet.
#[derive(Debug)]
pub struct ReceivedPacket {
    pub transport_id: TransportId,
    pub remote_addr: TransportAddr,
    pub data: Vec<u8>,
    pub timestamp_ms: u64,
}

/// A received packet as a mathematical value.
#[verifier::ext_equal]
pub struct Packet {
    pub transport_id: TransportId,
    pub remote_addr: Seq<u8>,
    pub data: Seq<u8>,
    pub timestamp_ms: u64,
}

impl View for ReceivedPacket {
    type V = Packet;

    open spec fn view(&self) -> Packet {
        Packet {
            transport_id: self.transport_id,
            remote_addr: self.remote_addr@,
            data: self.data@,
            timestamp_ms: self.timestamp_ms,
        }
    }
}

/// The packets of a list as mathematical values.
pub open spec fn packet_views(packets: Seq<ReceivedPacket>) -> Seq<Packet> {
    packets.map_values(|p: ReceivedPacket| p@)
}

// ---------------------------------------------------------------------------
// Hole punching
// ---------------------------------------------------------------------------

/// Whether a datagram is a probe or an acknowledgement of hole punching: it
/// begins with `NPTC` or `NPTA`.
pub open spec fn punches(data: Seq<u8>) -> bool {
    &&& data.len() >= 4
    &&& data[0] == 0x4e && data[1] == 0x50 && data[2] == 0x54
    &&& data[3] == 0x43 || data[3] == 0x41
}

pub fn is_punch_packet(data: &[u8]) -> (yes: bool)
    ensures
        yes == punches(data@),
{
    data.len() >= 4 && data[0] == 0x4e && data[1] == 0x50 && data[2] == 0x54 && (data[3] == 0x43
        || data[3] == 0x41)
}

// ---------------------------------------------------------------------------
// Coalesced datagrams
// ---------------------------------------------------------------------------

/// How many datagrams of the given length, the last perhaps shorter, the kernel
/// coalesced into one receive.
pub open spec fn segment_count(len: int, segment_size: int) -> int {
    if len == 0 || segment_size == 0 {
        0
    } else {
        (len + segment_size - 1) / segment_size
    }
}

pub fn udp_gro_segment_count(len: usize, segment_size: usize) -> (n: usize)
    ensures
        n == segment_count(len as int, segment_size as int),
{
    if len == 0 || segment_size == 0 {
        0
    } else {
        proof {
            lemma_segment_count(len as int, segment_size as int);
        }
        if len <= segment_size {
            1
        } else {
            (len - 1) / segment_size + 1
        }
    }
}

proof fn lemma_segment_count(len: int, size: int)
    requires
        len > 0,
        size > 0,
    ensures
        segment_count(len, size) == (len - 1) / size + 1,
        len <= size ==> segment_count(len, size) == 1,
        len > size ==> segment_count(len, size) > 1,
{
    assert((len + size - 1) / size == (len - 1) / size + 1) by (nonlinear_arith)
        requires
            len > 0,
            size > 0,
    ;
    if len <= size {
        assert((len - 1) / size == 0) by (nonlinear_arith)
            requires
                0 < len <= size,
        ;
    } else {
        assert((len - 1) / size >= 1) by (nonlinear_arith)
            requires
                len > size,
                size > 0,
        ;
    }
}

/// The datagrams in a coalesced receive, from position `at` on: each has the
/// segment's length, the last perhaps fewer bytes.
pub open spec fn segments(data: Seq<u8>, segment_size: int, at: int) -> Seq<Seq<u8>>
    decreases data.len() - at,
{
    if segment_size <= 0 || at < 0 || at >= data.len() {
        Seq::empty()
    } else {
        let end = if at + segment_size < data.len() {
            at + segment_size
        } else {
            data.len() as int
        };
        seq![data.subrange(at, end)] + segments(data, segment_size, end)
    }
}

fn copy_range(data: &Vec<u8>, from: usize, to: usize) -> (copy: Vec<u8>)
    requires
        from <= to <= data@.len(),
    ensures
        copy@ == data@.subrange(from as int, to as int),
{
    let mut copy: Vec<u8> = Vec::new();
    let mut i: usize = from;
    while i < to
        invariant
            from <= i <= to <= data@.len(),
            copy@ == data@.subrange(from as int, i as int),
        decreases to - i,
    {
        copy.push(data[i]);
        i = i + 1;
        assert(data@.subrange(from as int, i as int) =~= data@.subrange(
            from as int,
            i - 1,
        ).push(data@[i - 1]));
    }
    copy
}

// ---------------------------------------------------------------------------
// Source addresses
// ---------------------------------------------------------------------------

/// The transport address of a source.
pub open spec fn source_addr(addr: SocketAddr) -> Seq<u8> {
    encode_utf8(socket_addr_text(addr))
}

/// The transport addresses of recent sources, the oldest first.
pub struct AddrCache {
    entries: Vec<(SocketAddr, TransportAddr)>,
}

impl View for AddrCache {
    type V = Seq<SocketAddr>;

    closed spec fn view(&self) -> Seq<SocketAddr> {
        self.entries@.map_values(|e: (SocketAddr, TransportAddr)| e.0)
    }
}

/// The remembered sources after one more datagram of a source.
pub open spec fn remembered(sources: Seq<SocketAddr>, source: SocketAddr) -> Seq<SocketAddr> {
    if sources.contains(source) {
        sources
    } else if sources.len() >= UDP_ADDR_CACHE_CAP {
        sources.remove(0).push(source)
    } else {
        sources.push(source)
    }
}

impl AddrCache {
    pub closed spec fn inv(self) -> bool {
        &&& self.entries@.len() <= UDP_ADDR_CACHE_CAP
        &&& forall|i: int|
            0 <= i < self.entries@.len() ==> (#[trigger] self.entries@[i]).1@ == source_addr(
                self.entries@[i].0,
            )
    }

    pub fn new() -> (cache: AddrCache)
        ensures
            cache.inv(),
            cache@ == Seq::<SocketAddr>::empty(),
    {
        let cache = AddrCache { entries: Vec::new() };
        assert(cache@ =~= Seq::<SocketAddr>::empty());
        cache
    }

    /// The transport address of a source, which is remembered.
    pub fn cached_transport_addr(&mut self, remote_addr: SocketAddr) -> (addr: TransportAddr)
        requires
            old(self).inv(),
        ensures
            final(self).inv(),
            addr@ == source_addr(remote_addr),
            final(self)@ == remembered(old(self)@, remote_addr),
            final(self)@.len() <= UDP_ADDR_CACHE_CAP,
    {
        let mut i: usize = 0;
        while i < self.entries.len()
            invariant
                self.inv(),
                i <= self.entries@.len(),
                forall|k: int| 0 <= k < i ==> (#[trigger] self.entries@[k]).0 != remote_addr,
                *self == *old(self),
            decreases self.entries@.len() - i,
        {
            if self.entries[i].0 == remote_addr {
                assert(self@[i as int] == remote_addr);
                return self.entries[i].1.clone();
            }
            i = i + 1;
        }
        proof {
            if self@.contains(remote_addr) {
                let k = choose|k: int| 0 <= k < self@.len() && self@[k] == remote_addr;
                assert(self.entries@[k].0 == remote_addr);
            }
        }
        let addr = TransportAddr::from_socket_addr(remote_addr);
        if self.entries.len() >= UDP_ADDR_CACHE_CAP {
            self.entries.remove(0);
            assert(self@ =~= old(self)@.remove(0));
        }
        let ghost before = self@;
        self.entries.push((remote_addr, addr.clone()));
        assert(self@ =~= before.push(remote_addr));
        addr
    }
}

// ---------------------------------------------------------------------------
// Slots
// ---------------------------------------------------------------------------

/// One slot of a batched receive: the bytes, where they came from as far as the
/// kernel said it, and the segment length of a coalesced receive, else zero.
#[derive(Debug)]
pub struct ReceiveSlot {
    pub data: Vec<u8>,
    pub source: Option<SocketAddr>,
    pub gro_segment_size: usize,
}

/// A slot of a batched receive as a mathematical value.
pub struct Slot {
    pub data: Seq<u8>,
    pub source: Option<SocketAddr>,
    pub gro_segment_size: usize,
}

impl View for ReceiveSlot {
    type V = Slot;

    open spec fn view(&self) -> Slot {
        Slot {
            data: self.data@,
            source: self.source,
            gro_segment_size: self.gro_segment_size,
        }
    }
}

impl Slot {
    /// Whether a slot holds more than packets may: too many bytes without a
    /// segment length, or too long segments.
    pub open spec fn oversized(self, packet_buf_size: int) -> bool {
        if self.gro_segment_size == 0 {
            self.data.len() > packet_buf_size
        } else {
            self.gro_segment_size > packet_buf_size
        }
    }

    /// The datagrams that a slot delivers.
    pub open spec fn delivered(self, packet_buf_size: int) -> Seq<Seq<u8>> {
        if self.source is None || punches(self.data) || self.oversized(packet_buf_size) {
            Seq::empty()
        } else if segment_count(self.data.len() as int, self.gro_segment_size as int) > 1 {
            segments(self.data, self.gro_segment_size as int, 0)
        } else {
            seq![self.data]
        }
    }

    /// The remembered sources after a slot: that of a slot which is delivered is
    /// remembered.
    pub open spec fn remembered_in(
        self,
        sources: Seq<SocketAddr>,
        packet_buf_size: int,
    ) -> Seq<SocketAddr> {
        match self.source {
            None => sources,
            Some(source) => if punches(self.data) || self.oversized(packet_buf_size) {
                sources
            } else {
                remembered(sources, source)
            },
        }
    }

    /// The counters after a slot.
    pub open spec fn counted_in(
        self,
        stats: UdpStatsSnapshot,
        packet_buf_size: int,
    ) -> UdpStatsSnapshot {
        if self.source is None {
            stats
        } else if !punches(self.data) && self.oversized(packet_buf_size) {
            stats.received(self.data.len() as int).recv_failed()
        } else {
            stats.received(self.data.len() as int)
        }
    }
}

/// The packets that datagrams of one source become.
pub open spec fn packets_of(
    datagrams: Seq<Seq<u8>>,
    transport_id: TransportId,
    remote_addr: Seq<u8>,
    timestamp_ms: u64,
) -> Seq<Packet> {
    datagrams.map_values(
        |d: Seq<u8>| Packet { transport_id, remote_addr, data: d, timestamp_ms },
    )
}

/// The packets that a slot becomes.
pub open spec fn slot_packets(
    slot: Slot,
    packet_buf_size: int,
    transport_id: TransportId,
    timestamp_ms: u64,
) -> Seq<Packet> {
    match slot.source {
        None => Seq::empty(),
        Some(source) => packets_of(
            slot.delivered(packet_buf_size),
            transport_id,
            source_addr(source),
            timestamp_ms,
        ),
    }
}

/// Handles one slot: appends its packets.
fn receive_slot(
    slot: ReceiveSlot,
    packet_buf_size: usize,
    transport_id: TransportId,
    timestamp_ms: u64,
    stats: &mut UdpStats,
    cache: &mut AddrCache,
    packets: &mut Vec<ReceivedPacket>,
)
    requires
        old(cache).inv(),
    ensures
        final(cache).inv(),
        final(cache)@ == slot@.remembered_in(old(cache)@, packet_buf_size as int),
        final(stats)@ == slot@.counted_in(old(stats)@, packet_buf_size as int),
        packet_views(final(packets)@) == packet_views(old(packets)@) + slot_packets(
            slot@,
            packet_buf_size as int,
            transport_id,
            timestamp_ms,
        ),
{
    let ghost before = packet_views(old(packets)@);
    let len: usize = slot.data.len();
    let remote_addr = match slot.source {
        None => {
            assert(before + Seq::<Packet>::empty() =~= before);
            return ;
        },
        Some(source) => source,
    };
    stats.record_recv(len);
    if is_punch_packet(slot.data.as_slice()) {
        assert(packets_of(
            Seq::empty(),
            transport_id,
            source_addr(remote_addr),
            timestamp_ms,
        ) =~= Seq::<Packet>::empty());
        assert(before + Seq::<Packet>::empty() =~= before);
        return ;
    }
    if (slot.gro_segment_size == 0 && len > packet_buf_size) || slot.gro_segment_size
        > packet_buf_size {
        stats.record_recv_error();
        assert(packets_of(
            Seq::empty(),
            transport_id,
            source_addr(remote_addr),
            timestamp_ms,
        ) =~= Seq::<Packet>::empty());
        assert(before + Seq::<Packet>::empty() =~= before);
        return ;
    }
    let addr = cache.cached_transport_addr(remote_addr);
    if udp_gro_segment_count(len, slot.gro_segment_size) > 1 {
        split_segments(
            &slot.data,
            slot.gro_segment_size,
            transport_id,
            &addr,
            timestamp_ms,
            packets,
        );
        return ;
    }
    let ghost data = slot.data@;
    packets.push(ReceivedPacket { transport_id, remote_addr: addr, data: slot.data, timestamp_ms });
    assert(packet_views(packets@) =~= before + packets_of(
        seq![data],
        transport_id,
        source_addr(remote_addr),
        timestamp_ms,
    ));
}

/// Appends the datagrams of a coalesced receive.
fn split_segments(
    data: &Vec<u8>,
    segment_size: usize,
    transport_id: TransportId,
    addr: &TransportAddr,
    timestamp_ms: u64,
    packets: &mut Vec<ReceivedPacket>,
)
    requires
        segment_size > 0,
    ensures
        packet_views(final(packets)@) == packet_views(old(packets)@) + packets_of(
            segments(data@, segment_size as int, 0),
            transport_id,
            addr@,
            timestamp_ms,
        ),
{
    let ghost before = packet_views(old(packets)@);
    let ghost all = segments(data@, segment_size as int, 0);
    let ghost mut done: Seq<Seq<u8>> = Seq::empty();
    let total: usize = data.len();
    let mut start: usize = 0;
    proof {
        assert(all =~= done + segments(data@, segment_size as int, 0));
        assert(packet_views(packets@) =~= before + packets_of(
            done,
            transport_id,
            addr@,
            timestamp_ms,
        ));
    }
    while start < total
        invariant
            segment_size > 0,
            total == data@.len(),
            start <= total,
            all == done + segments(data@, segment_size as int, start as int),
            packet_views(packets@) == before + packets_of(
                done,
                transport_id,
                addr@,
                timestamp_ms,
            ),
        decreases total - start,
    {
        let end: usize = if segment_size < total - start {
            start + segment_size
        } else {
            total
        };
        let segment = copy_range(data, start, end);
        let ghost views = packet_views(packets@);
        let ghost piece = segment@;
        let packet = ReceivedPacket {
            transport_id,
            remote_addr: addr.clone(),
            data: segment,
            timestamp_ms,
        };
        let ghost last = packet@;
        packets.push(packet);
        proof {
            assert(packet_views(packets@) =~= views.push(last));
            assert(packets_of(done.push(piece), transport_id, addr@, timestamp_ms) =~= packets_of(
                done,
                transport_id,
                addr@,
                timestamp_ms,
            ).push(last));
            let rest = segments(data@, segment_size as int, end as int);
            assert(segments(data@, segment_size as int, start as int) == seq![piece] + rest);
            assert(done + (seq![piece] + rest) =~= done.push(piece) + rest);
            assert(packet_views(packets@) =~= before + packets_of(
                done.push(piece),
                transport_id,
                addr@,
                timestamp_ms,
            ));
            done = done.push(piece);
        }
        start = end;
    }
    proof {
        assert(done + Seq::<Seq<u8>>::empty() =~= done);
    }
}

/// The packets that the first `n` slots become, in the order of arrival.
pub open spec fn batch_packets(
    slots: Seq<Slot>,
    n: nat,
    packet_buf_size: int,
    transport_id: TransportId,
    timestamp_ms: u64,
) -> Seq<Packet>
    decreases n,
{
    if n == 0 {
        Seq::empty()
    } else {
        batch_packets(slots, (n - 1) as nat, packet_buf_size, transport_id, timestamp_ms)
            + slot_packets(slots[n - 1], packet_buf_size, transport_id, timestamp_ms)
    }
}

/// The counters after the first `n` slots.
pub open spec fn batch_counted(
    slots: Seq<Slot>,
    n: nat,
    stats: UdpStatsSnapshot,
    packet_buf_size: int,
) -> UdpStatsSnapshot
    decreases n,
{
    if n == 0 {
        stats
    } else {
        slots[n - 1].counted_in(
            batch_counted(slots, (n - 1) as nat, stats, packet_buf_size),
            packet_buf_size,
        )
    }
}

/// The remembered sources after the first `n` slots.
pub open spec fn batch_remembered(
    slots: Seq<Slot>,
    n: nat,
    sources: Seq<SocketAddr>,
    packet_buf_size: int,
) -> Seq<SocketAddr>
    decreases n,
{
    if n == 0 {
        sources
    } else {
        slots[n - 1].remembered_in(
            batch_remembered(slots, (n - 1) as nat, sources, packet_buf_size),
            packet_buf_size,
        )
    }
}

/// The slots of a list as mathematical values.
pub open spec fn slot_views(slots: Seq<ReceiveSlot>) -> Seq<Slot> {
    slots.map_values(|s: ReceiveSlot| s@)
}

/// The bytes that one packet of a transport may have, slack included.
pub open spec fn spec_packet_buf_size(mtu: u16) -> int {
    mtu + UDP_RECV_BUFFER_SLACK
}

pub fn packet_buf_size(mtu: u16) -> (n: usize)
    ensures
        n == spec_packet_buf_size(mtu),
{
    mtu as usize + UDP_RECV_BUFFER_SLACK
}

/// The bytes of a receive buffer.
pub fn recv_buf_size(mtu: u16, udp_gro_enabled: bool) -> (n: usize)
    ensures
        n == if udp_gro_enabled {
            UDP_GRO_RECV_BUFFER_SIZE as int
        } else {
            spec_packet_buf_size(mtu)
        },
{
    if udp_gro_enabled {
        UDP_GRO_RECV_BUFFER_SIZE
    } else {
        packet_buf_size(mtu)
    }
}

/// Handles a batched receive: takes the kernel's drop count over, and turns the
/// slots into packets in the order of arrival.
pub fn receive_batch(
    slots: Vec<ReceiveSlot>,
    kernel_drops: u32,
    mtu: u16,
    transport_id: TransportId,
    timestamp_ms: u64,
    stats: &mut UdpStats,
    cache: &mut AddrCache,
) -> (packets: Vec<ReceivedPacket>)
    requires
        old(cache).inv(),
    ensures
        final(cache).inv(),
        packet_views(packets@) == batch_packets(
            slot_views(slots@),
            slots@.len(),
            spec_packet_buf_size(mtu),
            transport_id,
            timestamp_ms,
        ),
        final(stats)@ == batch_counted(
            slot_views(slots@),
            slots@.len(),
            (UdpStatsSnapshot { kernel_drops: kernel_drops as u64, ..old(stats)@ }),
            spec_packet_buf_size(mtu),
        ),
        final(cache)@ == batch_remembered(
            slot_views(slots@),
            slots@.len(),
            old(cache)@,
            spec_packet_buf_size(mtu),
        ),
{
    let size: usize = packet_buf_size(mtu);
    let ghost views = slot_views(slots@);
    stats.set_kernel_drops(kernel_drops as u64);
    let ghost first = stats@;
    let mut packets: Vec<ReceivedPacket> = Vec::new();
    let mut rest = slots;
    let total: usize = rest.len();
    let mut i: usize = 0;
    assert(packet_views(packets@) =~= Seq::<Packet>::empty());
    while i < total
        invariant
            cache.inv(),
            size == spec_packet_buf_size(mtu),
            total == slots@.len(),
            total == rest@.len(),
            views == slot_views(slots@),
            i <= total,
            forall|k: int| i <= k < total ==> #[trigger] rest@[k] == slots@[k],
            packet_views(packets@) == batch_packets(
                views,
                i as nat,
                size as int,
                transport_id,
                timestamp_ms,
            ),
            stats@ == batch_counted(views, i as nat, first, size as int),
            cache@ == batch_remembered(views, i as nat, old(cache)@, size as int),
        decreases total - i,
    {
        let mut slot = ReceiveSlot { data: Vec::new(), source: None, gro_segment_size: 0 };
        std::mem::swap(&mut slot, &mut rest[i]);
        assert(views[i as int] == slot@);
        receive_slot(slot, size, transport_id, timestamp_ms, stats, cache, &mut packets);
        i = i + 1;
    }
    packets
}

/// What the receive loop does after it handed its packets over.
#[derive(Clone, Copy, Debug, PartialEq, Eq, Structural)]
pub enum ReceiveStep {
    Continue,
    Stop,
}

/// The receive loop ends when nobody takes its packets any more; packets that
/// were taken before they reached the channel leave it alone.
pub fn after_delivery(packets_left: usize, channel_closed: bool) -> (step: ReceiveStep)
    ensures
        step == if packets_left > 0 && channel_closed {
            ReceiveStep::Stop
        } else {
            ReceiveStep::Continue
        },
{
    if packets_left > 0 && channel_closed {
        ReceiveStep::Stop
    } else {
        ReceiveStep::Continue
    }
}

/// The number of slots of a batched receive.
pub fn recv_batch_width(buffers: usize, addrs: usize, segment_sizes: usize) -> (n: usize)
    ensures
        n <= buffers && n <= addrs && n <= segment_sizes && n <= UDP_RECV_BATCH_SIZE,
        n == buffers || n == addrs || n == segment_sizes || n == UDP_RECV_BATCH_SIZE,
{
    let mut n: usize = UDP_RECV_BATCH_SIZE;
    if buffers < n {
        n = buffers;
    }
    if addrs < n {
        n = addrs;
    }
    if segment_sizes < n {
        n = segment_sizes;
    }
    n
}

/// Checks the lengths that a batched receive reported against the buffers.
pub fn check_reported_lengths(lengths: &Vec<usize>, capacities: &Vec<usize>) -> (result: Result<
    (),
    String,
>)
    requires
        lengths@.len() <= capacities@.len(),
    ensures
        match result {
            Ok(_) => forall|i: int| 0 <= i < lengths@.len() ==> lengths@[i] <= capacities@[i],
            Err(reason) => reason@
                == "recvmmsg reported a datagram larger than the receive buffer"@ && exists|i: int|
                0 <= i < lengths@.len() && lengths@[i] > capacities@[i],
        },
{
    let mut i: usize = 0;
    while i < lengths.len()
        invariant
            lengths@.len() <= capacities@.len(),
            i <= lengths@.len(),
            forall|k: int| 0 <= k < i ==> lengths@[k] <= capacities@[k],
        decreases lengths@.len() - i,
    {
        if lengths[i] > capacities[i] {
            return Err(
                "recvmmsg reported a datagram larger than the receive buffer".to_owned(),
            );
        }
        i = i + 1;
    }
    Ok(())
}

// ---------------------------------------------------------------------------
// Control messages
// ---------------------------------------------------------------------------

/// A control message beside a received datagram.
#[derive(Clone, Copy, Debug, PartialEq, Eq, Structural)]
pub enum ControlMessage {
    /// The socket's count of dropped datagrams.
    Drops(u32),
    /// The segment length of a coalesced receive.
    SegmentSize(u16),
    Other,
}

/// What the control messages beside a datagram say.
#[derive(Clone, Copy, Debug, PartialEq, Eq, Structural)]
pub struct LinuxRecvCmsgs {
    pub drops: Option<u32>,
    pub gro_segment_size: usize,
}

/// What the first `n` control messages say: later ones take precedence, and a
/// segment length of zero says nothing.
pub open spec fn control_said(messages: Seq<ControlMessage>, n: nat) -> LinuxRecvCmsgs
    decreases n,
{
    if n == 0 {
        LinuxRecvCmsgs { drops: None, gro_segment_size: 0 }
    } else {
        let before = control_said(messages, (n - 1) as nat);
        match messages[n - 1] {
            ControlMessage::Drops(drops) => LinuxRecvCmsgs { drops: Some(drops), ..before },
            ControlMessage::SegmentSize(size) => if size > 0 {
                LinuxRecvCmsgs { gro_segment_size: size as usize, ..before }
            } else {
                before
            },
            ControlMessage::Other => before,
        }
    }
}

pub fn parse_linux_recv_cmsgs(messages: &Vec<ControlMessage>) -> (parsed: LinuxRecvCmsgs)
    ensures
        parsed == control_said(messages@, messages@.len()),
{
    let mut parsed = LinuxRecvCmsgs { drops: None, gro_segment_size: 0 };
    let mut i: usize = 0;
    while i < messages.len()
        invariant
            i <= messages@.len(),
            parsed == control_said(messages@, i as nat),
        decreases messages@.len() - i,
    {
        match messages[i] {
            ControlMessage::Drops(drops) => {
                parsed.drops = Some(drops);
            },
            ControlMessage::SegmentSize(size) => {
                if size > 0 {
                    parsed.gro_segment_size = size as usize;
                }
            },
            ControlMessage::Other => {},
        }
        i = i + 1;
    }
    parsed
}

/// The drop count of the first datagram from number `i` on that came with one,
/// or zero. The count only grows, so one sample for a batch is enough.
pub open spec fn first_drops(parsed: Seq<LinuxRecvCmsgs>, i: int) -> u32
    decreases parsed.len() - i,
{
    if i < 0 || i >= parsed.len() {
        0
    } else {
        match parsed[i].drops {
            Some(drops) => drops,
            None => first_drops(parsed, i + 1),
        }
    }
}

pub fn batch_drops(parsed: &Vec<LinuxRecvCmsgs>) -> (drops: u32)
    ensures
        drops == first_drops(parsed@, 0),
{
    let mut i: usize = 0;
    while i < parsed.len()
        invariant
            i <= parsed@.len(),
            first_drops(parsed@, 0) == first_drops(parsed@, i as int),
        decreases parsed@.len() - i,
    {
        match parsed[i].drops {
            Some(sample) => {
                return sample;
            },
            None => {},
        }
        i = i + 1;
    }
    0
}

// ---------------------------------------------------------------------------
// Socket addresses of the kernel
// ---------------------------------------------------------------------------

/// A socket address as the kernel hands it over, with its numbers in host order.
#[derive(Clone, Copy, Debug)]
pub enum KernelAddr {
    Inet { v4: u32, port: u16 },
    Inet6 { v6: u128, port: u16, scope_id: u32 },
    /// Another address family.
    Other { family: u32 },
}

/// The source that a kernel address names. An IPv6 address keeps its scope.
pub open spec fn kernel_source(addr: KernelAddr) -> Option<SocketAddr> {
    match addr {
        KernelAddr::Inet { v4, port } => Some(SocketAddr::V4 { ip: v4, port }),
        KernelAddr::Inet6 { v6, port, scope_id } => Some(
            SocketAddr::V6 { ip: v6, port, flowinfo: 0, scope_id },
        ),
        KernelAddr::Other { .. } => None,
    }
}

pub fn sockaddr_to_socket_addr(addr: KernelAddr) -> (result: Result<SocketAddr, String>)
    ensures
        match result {
            Ok(source) => kernel_source(addr) == Some(source),
            Err(reason) => addr matches KernelAddr::Other { family } && reason@
                == "unsupported address family: "@ + decimal_text(family as nat),
        },
{
    match addr {
        KernelAddr::Inet { v4, port } => Ok(SocketAddr::V4 { ip: v4, port }),
        KernelAddr::Inet6 { v6, port, scope_id } => Ok(
            SocketAddr::V6 { ip: v6, port, flowinfo: 0, scope_id },
        ),
        KernelAddr::Other { family } => {
            let mut reason = "unsupported address family: ".to_owned();
            push_decimal(&mut reason, family as u64);
            Err(reason)
        },
    }
}

// ---------------------------------------------------------------------------
// Laws
// ---------------------------------------------------------------------------

/// All datagrams of a list in a row.
pub open spec fn in_a_row(datagrams: Seq<Seq<u8>>) -> Seq<u8>
    decreases datagrams.len(),
{
    if datagrams.len() == 0 {
        Seq::empty()
    } else {
        datagrams[0] + in_a_row(datagrams.subrange(1, datagrams.len() as int))
    }
}

proof fn lemma_segments(data: Seq<u8>, segment_size: int, at: int)
    requires
        segment_size > 0,
        0 <= at <= data.len(),
    ensures
        in_a_row(segments(data, segment_size, at)) == data.subrange(at, data.len() as int),
        forall|i: int|
            0 <= i < segments(data, segment_size, at).len() ==> 0 < (#[trigger] segments(
                data,
                segment_size,
                at,
            )[i]).len() <= segment_size,
        forall|i: int|
            0 <= i < segments(data, segment_size, at).len() - 1 ==> (#[trigger] segments(
                data,
                segment_size,
                at,
            )[i]).len() == segment_size,
    decreases data.len() - at,
{
    let all = segments(data, segment_size, at);
    if at < data.len() {
        let end = if at + segment_size < data.len() {
            at + segment_size
        } else {
            data.len() as int
        };
        lemma_segments(data, segment_size, end);
        let rest = segments(data, segment_size, end);
        assert(all.subrange(1, all.len() as int) =~= rest);
        assert(data.subrange(at, end) + data.subrange(end, data.len() as int) =~= data.subrange(
            at,
            data.len() as int,
        ));
        assert forall|i: int| 0 <= i < all.len() implies 0 < (#[trigger] all[i]).len()
            <= segment_size by {
            if i > 0 {
                assert(all[i] == rest[i - 1]);
            }
        }
        assert forall|i: int| 0 <= i < all.len() - 1 implies (#[trigger] all[i]).len()
            == segment_size by {
            if i > 0 {
                assert(all[i] == rest[i - 1]);
            } else {
                assert(rest.len() > 0);
                assert(end < data.len());
            }
        }
    } else {
        assert(data.subrange(at, data.len() as int) =~= Seq::<u8>::empty());
    }
}

/// Splitting a coalesced receive loses no byte and adds none: in a row, the
/// datagrams are what was received. All but the last have the segment's length.
pub proof fn splitting_keeps_every_byte(data: Seq<u8>, segment_size: int)
    requires
        segment_size > 0,
    ensures
        in_a_row(segments(data, segment_size, 0)) == data,
        forall|i: int|
            0 <= i < segments(data, segment_size, 0).len() - 1 ==> (#[trigger] segments(
                data,
                segment_size,
                0,
            )[i]).len() == segment_size,
        forall|i: int|
            0 <= i < segments(data, segment_size, 0).len() ==> 0 < (#[trigger] segments(
                data,
                segment_size,
                0,
            )[i]).len() <= segment_size,
{
    lemma_segments(data, segment_size, 0);
    assert(data.subrange(0, data.len() as int) =~= data);
}

/// No packet is larger than a packet buffer, and none is a hole-punching probe
/// unless it came inside a coalesced receive.
pub proof fn delivered_packets_are_bounded(slot: Slot, packet_buf_size: int, i: int)
    requires
        0 <= i < slot.delivered(packet_buf_size).len(),
    ensures
        slot.delivered(packet_buf_size)[i].len() <= packet_buf_size,
        slot.gro_segment_size == 0 ==> !punches(slot.delivered(packet_buf_size)[i]),
{
    let len = slot.data.len() as int;
    let size = slot.gro_segment_size as int;
    if size > 0 && segment_count(len, size) > 1 {
        lemma_segments(slot.data, size, 0);
    } else if size > 0 && len > 0 {
        lemma_segment_count(len, size);
    }
}

proof fn lemma_batch_prefix(
    a: Seq<Slot>,
    b: Seq<Slot>,
    n: nat,
    packet_buf_size: int,
    transport_id: TransportId,
    timestamp_ms: u64,
)
    requires
        n <= a.len(),
        n <= b.len(),
        forall|i: int| 0 <= i < n ==> #[trigger] a[i] == b[i],
    ensures
        batch_packets(a, n, packet_buf_size, transport_id, timestamp_ms) == batch_packets(
            b,
            n,
            packet_buf_size,
            transport_id,
            timestamp_ms,
        ),
    decreases n,
{
    if n > 0 {
        lemma_batch_prefix(
            a,
            b,
            (n - 1) as nat,
            packet_buf_size,
            transport_id,
            timestamp_ms,
        );
        assert(a[n - 1] == b[n - 1]);
    }
}

/// Every slot of a batch contributes, in the order of arrival: wherever a batch is
/// split, its packets are those of the first part and then those of the second.
pub proof fn batches_add_up(
    a: Seq<Slot>,
    b: Seq<Slot>,
    packet_buf_size: int,
    transport_id: TransportId,
    timestamp_ms: u64,
)
    ensures
        batch_packets(a + b, (a + b).len(), packet_buf_size, transport_id, timestamp_ms)
            == batch_packets(a, a.len(), packet_buf_size, transport_id, timestamp_ms)
            + batch_packets(b, b.len(), packet_buf_size, transport_id, timestamp_ms),
    decreases b.len(),
{
    let packets = |s: Seq<Slot>|
        batch_packets(s, s.len(), packet_buf_size, transport_id, timestamp_ms);
    if b.len() == 0 {
        assert(a + b =~= a);
        assert(packets(a) + packets(b) =~= packets(a));
    } else {
        let init = b.drop_last();
        let whole = a + b;
        batches_add_up(a, init, packet_buf_size, transport_id, timestamp_ms);
        let before = (a + init).len();
        lemma_batch_prefix(
            whole,
            a + init,
            before,
            packet_buf_size,
            transport_id,
            timestamp_ms,
        );
        lemma_batch_prefix(b, init, init.len(), packet_buf_size, transport_id, timestamp_ms);
        let last = slot_packets(b.last(), packet_buf_size, transport_id, timestamp_ms);
        assert(whole[whole.len() - 1] == b.last());
        assert(packets(whole) == packets(a + init) + last);
        assert(packets(b) == packets(init) + last);
        assert(packets(a) + packets(init) + last =~= packets(a) + (packets(init) + last));
    }
}

/// A batch of one slot has the packets of that slot, and a batch of none has none.
pub proof fn single_slots_stand_for_themselves(
    slot: Slot,
    packet_buf_size: int,
    transport_id: TransportId,
    timestamp_ms: u64,
)
    ensures
        batch_packets(seq![slot], 1, packet_buf_size, transport_id, timestamp_ms) == slot_packets(
            slot,
            packet_buf_size,
            transport_id,
            timestamp_ms,
        ),
        batch_packets(Seq::empty(), 0, packet_buf_size, transport_id, timestamp_ms) == Seq::<
            Packet,
        >::empty(),
{
    let packets = slot_packets(slot, packet_buf_size, transport_id, timestamp_ms);
    let none = batch_packets(seq![slot], 0, packet_buf_size, transport_id, timestamp_ms);
    assert(seq![slot][0] == slot);
    assert(none + packets =~= packets);
}

proof fn lemma_batch_around(
    slots: Seq<Slot>,
    i: int,
    packet_buf_size: int,
    transport_id: TransportId,
    timestamp_ms: u64,
)
    requires
        0 <= i < slots.len(),
    ensures
        batch_packets(slots, slots.len(), packet_buf_size, transport_id, timestamp_ms)
            == batch_packets(
            slots.take(i),
            i as nat,
            packet_buf_size,
            transport_id,
            timestamp_ms,
        ) + slot_packets(slots[i], packet_buf_size, transport_id, timestamp_ms) + batch_packets(
            slots.skip(i + 1),
            (slots.len() - i - 1) as nat,
            packet_buf_size,
            transport_id,
            timestamp_ms,
        ),
{
    let (a, b, c) = (slots.take(i), seq![slots[i]], slots.skip(i + 1));
    assert(slots =~= (a + b) + c);
    batches_add_up(a + b, c, packet_buf_size, transport_id, timestamp_ms);
    batches_add_up(a, b, packet_buf_size, transport_id, timestamp_ms);
    single_slots_stand_for_themselves(slots[i], packet_buf_size, transport_id, timestamp_ms);
}

/// Whether bytes begin with `NPTC` or `NPTA`.
pub open spec fn begins_like_a_probe(data: Seq<u8>) -> bool {
    data.len() >= 4 && (data.take(4) == seq![0x4eu8, 0x50u8, 0x54u8, 0x43u8] || data.take(4)
        == seq![0x4eu8, 0x50u8, 0x54u8, 0x41u8])
}

/// Probes and acknowledgements of hole punching are known by their first four
/// bytes, and by nothing else.
pub proof fn probes_are_known_by_their_first_bytes(data: Seq<u8>)
    ensures
        punches(data) <==> begins_like_a_probe(data),
{
    if data.len() >= 4 {
        let head = data.take(4);
        let (probe, ack) = (seq![0x4eu8, 0x50u8, 0x54u8, 0x43u8], seq![
            0x4eu8,
            0x50u8,
            0x54u8,
            0x41u8,
        ]);
        assert(data[0] == head[0] && data[1] == head[1] && data[2] == head[2] && data[3]
            == head[3]);
        if punches(data) {
            assert(head =~= probe || head =~= ack);
        }
    }
}

/// A datagram that has a source, is no probe, fits and is no longer than a segment
/// where there is a segment length becomes one packet, with its bytes and the address of its source, between the packets of the slots
/// before it and of those after it.
pub proof fn plain_datagrams_are_delivered(
    slots: Seq<Slot>,
    i: int,
    source: SocketAddr,
    mtu: u16,
    transport_id: TransportId,
    timestamp_ms: u64,
)
    requires
        0 <= i < slots.len(),
        slots[i].source == Some(source),
        if slots[i].gro_segment_size == 0 {
            slots[i].data.len() <= mtu + 100
        } else {
            slots[i].data.len() <= slots[i].gro_segment_size <= mtu + 100
        },
        !begins_like_a_probe(slots[i].data),
    ensures
        ({
            let size = spec_packet_buf_size(mtu);
            let packet = Packet {
                transport_id,
                remote_addr: encode_utf8(socket_addr_text(source)),
                data: slots[i].data,
                timestamp_ms,
            };
            batch_packets(slots, slots.len(), size, transport_id, timestamp_ms) == batch_packets(
                slots.take(i),
                i as nat,
                size,
                transport_id,
                timestamp_ms,
            ).push(packet) + batch_packets(
                slots.skip(i + 1),
                (slots.len() - i - 1) as nat,
                size,
                transport_id,
                timestamp_ms,
            )
        }),
{
    let size = spec_packet_buf_size(mtu);
    let slot = slots[i];
    lemma_batch_around(slots, i, size, transport_id, timestamp_ms);
    probes_are_known_by_their_first_bytes(slot.data);
    if slot.gro_segment_size > 0 && slot.data.len() > 0 {
        lemma_segment_count(slot.data.len() as int, slot.gro_segment_size as int);
    }
    let packet = Packet {
        transport_id,
        remote_addr: encode_utf8(socket_addr_text(source)),
        data: slot.data,
        timestamp_ms,
    };
    let before = batch_packets(slots.take(i), i as nat, size, transport_id, timestamp_ms);
    assert(slot_packets(slot, size, transport_id, timestamp_ms) =~= seq![packet]);
    assert(before + seq![packet] =~= before.push(packet));
}

proof fn lemma_segment_at(data: Seq<u8>, size: int, at: int, k: int)
    requires
        size > 0,
        0 <= at < data.len(),
        0 <= k,
        at + k * size < data.len(),
    ensures
        k < segments(data, size, at).len(),
        segments(data, size, at)[k] == data.subrange(
            at + k * size,
            if at + (k + 1) * size < data.len() {
                at + (k + 1) * size
            } else {
                data.len() as int
            },
        ),
    decreases k,
{
    let all = segments(data, size, at);
    assert(1 * size == size) by (nonlinear_arith);
    if k == 0 {
        assert(0 * size == 0) by (nonlinear_arith);
    } else {
        assert(k * size == (k - 1) * size + size) by (nonlinear_arith);
        assert((k + 1) * size == k * size + size) by (nonlinear_arith);
        assert((k - 1) * size >= 0) by (nonlinear_arith)
            requires
                k >= 1,
                size > 0,
        ;
        lemma_segment_at(data, size, at + size, k - 1);
        assert(all == seq![data.subrange(at, at + size)] + segments(data, size, at + size));
    }
}

proof fn lemma_segments_len(data: Seq<u8>, size: int, at: int)
    requires
        size > 0,
        0 <= at <= data.len(),
    ensures
        segments(data, size, at).len() == segment_count(data.len() - at, size),
    decreases data.len() - at,
{
    let left = data.len() - at;
    if left > 0 {
        lemma_segment_count(left, size);
        if left <= size {
            assert(segments(data, size, data.len() as int).len() == 0);
        } else {
            lemma_segments_len(data, size, at + size);
            lemma_segment_count(left - size, size);
            assert((left - size - 1) / size + 1 == (left - 1) / size) by (nonlinear_arith)
                requires
                    size > 0,
            ;
        }
    }
}

/// A coalesced receive that has a source, is no probe and has segments that fit
/// becomes one packet for each run of as many bytes as a segment has, in the
/// order of the bytes, all with the address of its source.
pub proof fn coalesced_datagrams_are_delivered(
    slots: Seq<Slot>,
    i: int,
    source: SocketAddr,
    mtu: u16,
    transport_id: TransportId,
    timestamp_ms: u64,
    packets: Seq<Packet>,
)
    requires
        0 <= i < slots.len(),
        slots[i].source == Some(source),
        0 < slots[i].gro_segment_size <= mtu + 100,
        slots[i].data.len() > 0,
        !begins_like_a_probe(slots[i].data),
        packets == slot_packets(
            slots[i],
            spec_packet_buf_size(mtu),
            transport_id,
            timestamp_ms,
        ),
    ensures
        (packets.len() - 1) * slots[i].gro_segment_size < slots[i].data.len() <= packets.len()
            * slots[i].gro_segment_size,
        forall|k: int|
            0 <= k < packets.len() ==> #[trigger] packets[k] == (Packet {
                transport_id,
                remote_addr: encode_utf8(socket_addr_text(source)),
                data: slots[i].data.subrange(
                    k * slots[i].gro_segment_size,
                    if (k + 1) * slots[i].gro_segment_size < slots[i].data.len() {
                        (k + 1) * slots[i].gro_segment_size
                    } else {
                        slots[i].data.len() as int
                    },
                ),
                timestamp_ms,
            }),
        ({
            let buffer = spec_packet_buf_size(mtu);
            batch_packets(slots, slots.len(), buffer, transport_id, timestamp_ms) == batch_packets(
                slots.take(i),
                i as nat,
                buffer,
                transport_id,
                timestamp_ms,
            ) + packets + batch_packets(
                slots.skip(i + 1),
                (slots.len() - i - 1) as nat,
                buffer,
                transport_id,
                timestamp_ms,
            )
        }),
{
    let buffer = spec_packet_buf_size(mtu);
    let slot = slots[i];
    let data = slot.data;
    let size = slot.gro_segment_size as int;
    lemma_batch_around(slots, i, buffer, transport_id, timestamp_ms);
    probes_are_known_by_their_first_bytes(data);
    lemma_segment_count(data.len() as int, size);
    lemma_segments_len(data, size, 0);
    let n = segment_count(data.len() as int, size);
    let q = (data.len() - 1) / size;
    assert(q * size <= data.len() - 1 < (q + 1) * size) by (nonlinear_arith)
        requires
            size > 0,
            q == (data.len() - 1) / size,
    ;
    assert(slot.delivered(buffer).len() == n);
    assert forall|k: int| 0 <= k < packets.len() implies #[trigger] packets[k] == (Packet {
        transport_id,
        remote_addr: encode_utf8(socket_addr_text(source)),
        data: data.subrange(
            k * size,
            if (k + 1) * size < data.len() {
                (k + 1) * size
            } else {
                data.len() as int
            },
        ),
        timestamp_ms,
    }) by {
        if n > 1 {
            assert(k * size <= q * size) by (nonlinear_arith)
                requires
                    k <= q,
                    size > 0,
            ;
            lemma_segment_at(data, size, 0, k);
        } else {
            assert(k == 0);
            assert(0 * size == 0) by (nonlinear_arith);
            assert(1 * size == size) by (nonlinear_arith);
            assert(data.subrange(0, data.len() as int) =~= data);
        }
    }
}

/// What has no source, begins like a probe or does not fit leaves no packet, and
/// does not touch those of the other slots.
pub proof fn unfit_slots_leave_no_packet(
    slots: Seq<Slot>,
    i: int,
    mtu: u16,
    transport_id: TransportId,
    timestamp_ms: u64,
)
    requires
        0 <= i < slots.len(),
        slots[i].source is None || begins_like_a_probe(slots[i].data) || (
        slots[i].gro_segment_size == 0 && slots[i].data.len() > mtu + 100)
            || slots[i].gro_segment_size > mtu + 100,
    ensures
        ({
            let size = spec_packet_buf_size(mtu);
            batch_packets(slots, slots.len(), size, transport_id, timestamp_ms) == batch_packets(
                slots.remove(i),
                (slots.len() - 1) as nat,
                size,
                transport_id,
                timestamp_ms,
            )
        }),
{
    let size = spec_packet_buf_size(mtu);
    let slot = slots[i];
    lemma_batch_around(slots, i, size, transport_id, timestamp_ms);
    probes_are_known_by_their_first_bytes(slot.data);
    let (a, c) = (slots.take(i), slots.skip(i + 1));
    assert(slots.remove(i) =~= a + c);
    batches_add_up(a, c, size, transport_id, timestamp_ms);
    let before = batch_packets(a, i as nat, size, transport_id, timestamp_ms);
    assert(slot_packets(slot, size, transport_id, timestamp_ms) =~= Seq::<Packet>::empty());
    assert(before + Seq::<Packet>::empty() =~= before);
}

/// Each slot with a source counts as one receive of all its bytes, and as a
/// receive error only where it is no probe and does not fit. A slot without a
/// source does not count.
pub proof fn slots_are_counted(slot: Slot, stats: UdpStatsSnapshot, mtu: u16)
    ensures
        ({
            let after = slot.counted_in(stats, spec_packet_buf_size(mtu));
            let failed = !begins_like_a_probe(slot.data) && (if slot.gro_segment_size == 0 {
                slot.data.len() > mtu + 100
            } else {
                slot.gro_segment_size > mtu + 100
            });
            let turn: int = 0x1_0000_0000_0000_0000;
            if slot.source is None {
                after == stats
            } else {
                after == (UdpStatsSnapshot {
                    packets_recv: ((stats.packets_recv + 1) % turn) as u64,
                    bytes_recv: ((stats.bytes_recv + slot.data.len()) % turn) as u64,
                    recv_errors: (if failed {
                        ((stats.recv_errors + 1) % turn) as u64
                    } else {
                        stats.recv_errors
                    }),
                    ..stats
                })
            }
        }),
{
    probes_are_known_by_their_first_bytes(slot.data);
}

proof fn lemma_counted_prefix(
    a: Seq<Slot>,
    b: Seq<Slot>,
    n: nat,
    stats: UdpStatsSnapshot,
    packet_buf_size: int,
)
    requires
        n <= a.len(),
        n <= b.len(),
        forall|i: int| 0 <= i < n ==> #[trigger] a[i] == b[i],
    ensures
        batch_counted(a, n, stats, packet_buf_size) == batch_counted(
            b,
            n,
            stats,
            packet_buf_size,
        ),
    decreases n,
{
    if n > 0 {
        lemma_counted_prefix(a, b, (n - 1) as nat, stats, packet_buf_size);
        assert(a[n - 1] == b[n - 1]);
    }
}

/// Wherever a batch is split, it is counted as its two parts one after the other,
/// and a single slot is counted as itself.
pub proof fn batches_are_counted_in_parts(
    a: Seq<Slot>,
    b: Seq<Slot>,
    slot: Slot,
    stats: UdpStatsSnapshot,
    packet_buf_size: int,
)
    ensures
        batch_counted(a + b, (a + b).len(), stats, packet_buf_size) == batch_counted(
            b,
            b.len(),
            batch_counted(a, a.len(), stats, packet_buf_size),
            packet_buf_size,
        ),
        batch_counted(seq![slot], 1, stats, packet_buf_size) == slot.counted_in(
            stats,
            packet_buf_size,
        ),
        batch_counted(Seq::empty(), 0, stats, packet_buf_size) == stats,
    decreases b.len(),
{
    assert(batch_counted(seq![slot], 0, stats, packet_buf_size) == stats);
    assert(seq![slot][0] == slot);
    if b.len() == 0 {
        assert(a + b =~= a);
    } else {
        let init = b.drop_last();
        batches_are_counted_in_parts(a, init, slot, stats, packet_buf_size);
        lemma_counted_prefix(a + b, a + init, (a + init).len(), stats, packet_buf_size);
        lemma_counted_prefix(
            b,
            init,
            init.len(),
            batch_counted(a, a.len(), stats, packet_buf_size),
            packet_buf_size,
        );
        assert((a + b)[(a + b).len() - 1] == b.last());
    }
}

/// The sources that are remembered are the most recent ones, without doubles: a
/// new source comes last and drives out the oldest one where there is no room.
pub proof fn recent_sources_are_remembered(
    sources: Seq<SocketAddr>,
    source: SocketAddr,
    other: SocketAddr,
)
    requires
        sources.len() <= 16,
    ensures
        remembered(sources, source).contains(source),
        sources.contains(source) ==> remembered(sources, source) == sources,
        !sources.contains(source) ==> remembered(sources, source).last() == source,
        remembered(sources, source).len() <= 16,
        other != source && sources.len() < 16 ==> (remembered(sources, source).contains(other)
            <==> sources.contains(other)),
        !sources.contains(source) && sources.len() == 16 ==> remembered(sources, source).drop_last()
            == sources.subrange(1, 16),
        !sources.contains(source) && sources.len() < 16 ==> remembered(sources, source).drop_last()
            == sources,
        sources.no_duplicates() ==> remembered(sources, source).no_duplicates(),
{
    let after = remembered(sources, source);
    if !sources.contains(source) {
        assert(after.last() == source);
        assert(after[after.len() - 1] == source);
        if sources.len() == 16 {
            assert(after.drop_last() =~= sources.subrange(1, 16));
            assert forall|i: int, j: int|
                sources.no_duplicates() && 0 <= i < after.len() && 0 <= j < after.len() && i
                    != j implies after[i] != after[j] by {
                if i < 15 {
                    assert(after[i] == sources[i + 1]);
                }
                if j < 15 {
                    assert(after[j] == sources[j + 1]);
                }
            }
        } else {
            assert(after.drop_last() =~= sources);
            assert forall|x: SocketAddr| sources.contains(x) implies after.contains(x) by {
                let i = choose|i: int| 0 <= i < sources.len() && sources[i] == x;
                assert(after[i] == x);
            }
            if after.contains(other) && other != source {
                let i = choose|i: int| 0 <= i < after.len() && after[i] == other;
                assert(sources[i] == other);
            }
            assert forall|i: int, j: int|
                sources.no_duplicates() && 0 <= i < after.len() && 0 <= j < after.len() && i
                    != j implies after[i] != after[j] by {
                if i < sources.len() {
                    assert(after[i] == sources[i]);
                }
                if j < sources.len() {
                    assert(after[j] == sources[j]);
                }
            }
        }
    }
}

/// Of a batch's drop counts the first one counts: that of the first datagram that
/// came with one. Where none did, there is none.
pub proof fn first_sample_counts(parsed: Seq<LinuxRecvCmsgs>, i: int, at: int)
    requires
        0 <= at <= i <= parsed.len(),
        forall|k: int| at <= k < i ==> (#[trigger] parsed[k]).drops is None,
    ensures
        i < parsed.len() && parsed[i].drops is Some ==> Some(first_drops(parsed, at))
            == parsed[i].drops,
        i == parsed.len() ==> first_drops(parsed, at) == 0,
    decreases i - at,
{
    if at < i {
        assert(parsed[at].drops is None);
        first_sample_counts(parsed, i, at + 1);
    }
}

/// Of a datagram's control messages the last drop count and the last segment
/// length that is not zero hold, and other messages say nothing.
pub proof fn last_control_messages_hold(messages: Seq<ControlMessage>, i: int, n: nat)
    requires
        0 <= i < n <= messages.len(),
    ensures
        (messages[i] matches ControlMessage::Drops(drops) && forall|k: int|
            i < k < n ==> !(#[trigger] messages[k] is Drops)) ==> control_said(messages, n).drops
            == Some(messages[i]->Drops_0),
        (messages[i] matches ControlMessage::SegmentSize(size) && size > 0 && forall|k: int|
            i < k < n ==> (#[trigger] messages[k] matches ControlMessage::SegmentSize(later)
                ==> later == 0)) ==> control_said(messages, n).gro_segment_size
            == messages[i]->SegmentSize_0,
    decreases n,
{
    if i < n - 1 {
        last_control_messages_hold(messages, i, (n - 1) as nat);
        let last = messages[n - 1];
        assert(last is Drops || last is SegmentSize || last is Other);
    }
}

/// Where no control message speaks of drops, no count is known, and where none
/// has a segment length, nothing was coalesced.
pub proof fn silence_says_nothing(messages: Seq<ControlMessage>, n: nat)
    requires
        n <= messages.len(),
    ensures
        (forall|k: int| 0 <= k < n ==> !(#[trigger] messages[k] is Drops)) ==> control_said(
            messages,
            n,
        ).drops is None,
        (forall|k: int|
            0 <= k < n ==> (#[trigger] messages[k] matches ControlMessage::SegmentSize(size)
                ==> size == 0)) ==> control_said(messages, n).gro_segment_size == 0,
    decreases n,
{
    if n > 0 {
        silence_says_nothing(messages, (n - 1) as nat);
        let last = messages[n - 1];
        assert(last is Drops || last is SegmentSize || last is Other);
    }
}

/// An address of the kernel keeps its number, its port and its scope.
pub proof fn kernel_addresses_keep_their_numbers(
    v4: u32,
    v6: u128,
    port: u16,
    scope: u32,
    family: u32,
)
    ensures
        kernel_source(KernelAddr::Inet { v4, port }) == Some(SocketAddr::V4 { ip: v4, port }),
        kernel_source(KernelAddr::Inet6 { v6, port, scope_id: scope }) == Some(
            SocketAddr::V6 { ip: v6, port, flowinfo: 0, scope_id: scope },
        ),
        kernel_source(KernelAddr::Other { family }) is None,
{
}

/// Two sources that differ in their scope only are different sources.
pub proof fn scopes_tell_sources_apart(v6: u128, port: u16, a: u32, b: u32)
    requires
        a != b,
    ensures
        kernel_source(KernelAddr::Inet6 { v6, port, scope_id: a }) != kernel_source(
            KernelAddr::Inet6 { v6, port, scope_id: b },
        ),
{
}

/// The views of packets and slots hold what these hold, and the views of a list
/// are those of its entries in their order.
pub proof fn receive_views_hold_their_fields(
    packet: ReceivedPacket,
    slot: ReceiveSlot,
    packets: Seq<ReceivedPacket>,
    slots: Seq<ReceiveSlot>,
    i: int,
)
    ensures
        packet@.transport_id == packet.transport_id,
        packet@.remote_addr == packet.remote_addr@,
        packet@.data == packet.data@,
        packet@.timestamp_ms == packet.timestamp_ms,
        slot@.data == slot.data@,
        slot@.source == slot.source,
        slot@.gro_segment_size == slot.gro_segment_size,
        packet_views(packets).len() == packets.len(),
        0 <= i < packets.len() ==> packet_views(packets)[i] == packets[i]@,
        slot_views(slots).len() == slots.len(),
        0 <= i < slots.len() ==> slot_views(slots)[i] == slots[i]@,
{
}

/// The address of a packet is the text of its source.
pub proof fn packets_are_addressed_by_their_source(source: SocketAddr)
    ensures
        TransportAddr::spec_text(source_addr(source)) == Some(socket_addr_text(source)),
{
    TransportAddr::text_round_trip(socket_addr_text(source));
}

/// The source of a slot is remembered exactly where the slot is delivered: not
/// where the kernel named none, and neither for a probe nor for a slot that holds
/// more than packets may.
pub proof fn sources_of_delivered_slots_are_remembered(
    slot: Slot,
    sources: Seq<SocketAddr>,
    packet_buf_size: int,
    source: SocketAddr,
)
    ensures
        slot.source is None ==> slot.remembered_in(sources, packet_buf_size) == sources,
        begins_like_a_probe(slot.data) ==> slot.remembered_in(sources, packet_buf_size) == sources,
        slot.gro_segment_size == 0 && slot.data.len() > packet_buf_size ==> slot.remembered_in(
            sources,
            packet_buf_size,
        ) == sources,
        slot.gro_segment_size > packet_buf_size && slot.gro_segment_size > 0 ==> slot.remembered_in(
            sources,
            packet_buf_size,
        ) == sources,
        slot.source == Some(source) && !begins_like_a_probe(slot.data) && (
        slot.gro_segment_size == 0 && slot.data.len() <= packet_buf_size || 0
            < slot.gro_segment_size <= packet_buf_size) ==> slot.remembered_in(
            sources,
            packet_buf_size,
        ) == remembered(sources, source),
{
    probes_are_known_by_their_first_bytes(slot.data);
}

/// The sources of a batch are remembered slot after slot, and those of two batches
/// one after the other.
pub proof fn batches_are_remembered_in_parts(
    first: Seq<Slot>,
    second: Seq<Slot>,
    n: nat,
    sources: Seq<SocketAddr>,
    packet_buf_size: int,
)
    requires
        n <= second.len(),
    ensures
        batch_remembered(first, 0, sources, packet_buf_size) == sources,
        first.len() > 0 ==> batch_remembered(first, 1, sources, packet_buf_size)
            == first[0].remembered_in(sources, packet_buf_size),
        batch_remembered(first + second, first.len() + n, sources, packet_buf_size)
            == batch_remembered(
            second,
            n,
            batch_remembered(first, first.len(), sources, packet_buf_size),
            packet_buf_size,
        ),
    decreases n,
{
    reveal_with_fuel(batch_remembered, 2);
    if n > 0 {
        batches_are_remembered_in_parts(first, second, (n - 1) as nat, sources, packet_buf_size);
        assert((first + second)[first.len() + n - 1] == second[n - 1]);
    } else {
        lemma_remembered_alike(first, second, first.len(), sources, packet_buf_size);
    }
}

proof fn lemma_remembered_alike(
    first: Seq<Slot>,
    second: Seq<Slot>,
    n: nat,
    sources: Seq<SocketAddr>,
    packet_buf_size: int,
)
    requires
        n <= first.len(),
    ensures
        batch_remembered(first + second, n, sources, packet_buf_size) == batch_remembered(
            first,
            n,
            sources,
            packet_buf_size,
        ),
    decreases n,
{
    if n > 0 {
        lemma_remembered_alike(first, second, (n - 1) as nat, sources, packet_buf_size);
        assert((first + second)[n - 1] == first[n - 1]);
    }
}

} // verus!
