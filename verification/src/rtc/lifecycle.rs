//! Ownership of physical peer connections.
//!
//! A peer connection occupies one slot of a fixed capacity from the moment it
//! is reserved until its physical close has completed. A slot moves from
//! creating to active to closing. A close that was given up keeps its slot, so
//! that nothing can be allocated around a connection whose fate is unknown.

use vstd::prelude::*;
use crate::addr::TransportAddr;
use crate::addr_map::AddrMap;

verus! {

/// How far a physical peer connection has come.
#[derive(Clone, Copy, Debug, PartialEq, Eq, Structural)]
pub enum PhysicalPhase {
    Creating,
    Active,
    Closing,
}

/// One physical peer connection.
#[derive(Clone, Copy, Debug, PartialEq, Eq, Structural)]
pub struct PhysicalSlot {
    /// Tells successive connections to one peer apart.
    pub generation: u64,
    pub phase: PhysicalPhase,
    /// A replacement waits for this connection's close.
    pub replacement_waiter: bool,
    /// The close was given up; only a closing slot can be abandoned.
    pub abandoned: bool,
}

/// Conservation counters for physical WebRTC peer connections.
#[derive(Clone, Copy, Debug, PartialEq, Eq, Structural)]
pub struct WebRtcResourceSnapshot {
    /// Configured maximum of simultaneous physical peer connections.
    pub capacity: usize,
    /// Capacity reserved before a peer connection is created.
    pub creating: usize,
    /// Created peer connections which are gathering, pending, or live.
    pub active: usize,
    /// Peer connections that keep their capacity while their close completes.
    pub closing: usize,
    /// Closes that have not completed.
    pub cleanup_inflight: usize,
    /// Closes that were given up; they keep their capacity.
    pub abandoned: usize,
    /// Closes that wait for escaped references to the peer connection.
    pub straggler_waiters: usize,
    /// Peer connections created by this transport.
    pub created_total: u64,
    /// Peer connections whose close completed.
    pub closed_total: u64,
    /// Explicit ICE stops that returned an error.
    pub ice_stop_failures_total: u64,
    /// Highest simultaneous count of creating, active and closing.
    pub peak_physical: usize,
}

impl WebRtcResourceSnapshot {
    /// What holds of every snapshot: capacity is never exceeded, every closing
    /// connection is either being closed or abandoned, and every connection
    /// that was created and has not been closed is active or closing.
    pub open spec fn conserved(self) -> bool {
        &&& self.creating + self.active + self.closing <= self.capacity
        &&& self.cleanup_inflight + self.abandoned == self.closing
        &&& self.created_total - self.closed_total == self.active + self.closing
        &&& self.creating + self.active + self.closing <= self.peak_physical <= self.capacity
    }
}

/// Why a physical slot was not reserved.
#[derive(Clone, Copy, Debug, PartialEq, Eq, Structural)]
pub enum PhysicalReserveError {
    Stopped,
    PeerBusy(PhysicalPhase),
    Capacity,
}

/// What a slot is counted as.
pub enum SlotKind {
    Creating,
    Active,
    Inflight,
    Abandoned,
}

pub open spec fn kind_of(slot: PhysicalSlot) -> SlotKind {
    match slot.phase {
        PhysicalPhase::Creating => SlotKind::Creating,
        PhysicalPhase::Active => SlotKind::Active,
        PhysicalPhase::Closing => if slot.abandoned {
            SlotKind::Abandoned
        } else {
            SlotKind::Inflight
        },
    }
}

/// The peers whose slot is of a kind.
pub open spec fn of_kind(slots: Map<Seq<u8>, PhysicalSlot>, kind: SlotKind) -> Set<Seq<u8>> {
    slots.dom().filter(|peer: Seq<u8>| kind_of(slots[peer]) == kind)
}

/// The number of slots of a kind.
pub open spec fn count_of(slots: Map<Seq<u8>, PhysicalSlot>, kind: SlotKind) -> nat {
    of_kind(slots, kind).len()
}

/// The kinds partition the slots.
proof fn lemma_partition(slots: Map<Seq<u8>, PhysicalSlot>)
    requires
        slots.dom().finite(),
    ensures
        slots.dom().len() == count_of(slots, SlotKind::Creating) + count_of(slots, SlotKind::Active)
            + count_of(slots, SlotKind::Inflight) + count_of(slots, SlotKind::Abandoned),
        forall|kind: SlotKind| (#[trigger] of_kind(slots, kind)).finite(),
{
    broadcast use vstd::set_lib::group_set_lib_default;

    let c = of_kind(slots, SlotKind::Creating);
    let a = of_kind(slots, SlotKind::Active);
    let i = of_kind(slots, SlotKind::Inflight);
    let b = of_kind(slots, SlotKind::Abandoned);
    assert forall|kind: SlotKind| (#[trigger] of_kind(slots, kind)).finite() by {
        vstd::set_lib::lemma_len_subset(of_kind(slots, kind), slots.dom());
    }
    assert(c.union(a).union(i).union(b) =~= slots.dom());
    assert(c.disjoint(a));
    assert(c.union(a).disjoint(i));
    assert(c.union(a).union(i).disjoint(b));
    vstd::set_lib::lemma_set_disjoint_lens(c, a);
    vstd::set_lib::lemma_set_disjoint_lens(c.union(a), i);
    vstd::set_lib::lemma_set_disjoint_lens(c.union(a).union(i), b);
}

/// One if `kind` is the given kind.
spec fn unit(kind: SlotKind, given: Option<SlotKind>) -> nat {
    if given == Some(kind) {
        1
    } else {
        0
    }
}

/// `after` has one slot of kind `from` less and one of kind `to` more.
spec fn moved(
    before: Map<Seq<u8>, PhysicalSlot>,
    after: Map<Seq<u8>, PhysicalSlot>,
    from: Option<SlotKind>,
    to: Option<SlotKind>,
    kind: SlotKind,
) -> bool {
    count_of(after, kind) + unit(kind, from) == count_of(before, kind) + unit(kind, to)
}

spec fn all_moved(
    before: Map<Seq<u8>, PhysicalSlot>,
    after: Map<Seq<u8>, PhysicalSlot>,
    from: Option<SlotKind>,
    to: Option<SlotKind>,
) -> bool {
    &&& moved(before, after, from, to, SlotKind::Creating)
    &&& moved(before, after, from, to, SlotKind::Active)
    &&& moved(before, after, from, to, SlotKind::Inflight)
    &&& moved(before, after, from, to, SlotKind::Abandoned)
}

proof fn lemma_add_kind(
    slots: Map<Seq<u8>, PhysicalSlot>,
    peer: Seq<u8>,
    slot: PhysicalSlot,
    kind: SlotKind,
)
    requires
        slots.dom().finite(),
        !slots.dom().contains(peer),
    ensures
        moved(slots, slots.insert(peer, slot), None, Some(kind_of(slot)), kind),
{
    lemma_partition(slots);
    let before = of_kind(slots, kind);
    if kind == kind_of(slot) {
        assert(of_kind(slots.insert(peer, slot), kind) =~= before.insert(peer));
    } else {
        assert(of_kind(slots.insert(peer, slot), kind) =~= before);
    }
}

/// Giving a peer without a slot one adds one to the slot's kind.
proof fn lemma_add(slots: Map<Seq<u8>, PhysicalSlot>, peer: Seq<u8>, slot: PhysicalSlot)
    requires
        slots.dom().finite(),
        !slots.dom().contains(peer),
    ensures
        all_moved(slots, slots.insert(peer, slot), None, Some(kind_of(slot))),
{
    lemma_add_kind(slots, peer, slot, SlotKind::Creating);
    lemma_add_kind(slots, peer, slot, SlotKind::Active);
    lemma_add_kind(slots, peer, slot, SlotKind::Inflight);
    lemma_add_kind(slots, peer, slot, SlotKind::Abandoned);
}

/// Taking a peer's slot away takes one from the slot's kind.
proof fn lemma_take(slots: Map<Seq<u8>, PhysicalSlot>, peer: Seq<u8>)
    requires
        slots.dom().finite(),
        slots.dom().contains(peer),
    ensures
        slots.remove(peer).dom().finite(),
        all_moved(slots, slots.remove(peer), Some(kind_of(slots[peer])), None),
{
    let rest = slots.remove(peer);
    assert(rest.dom() =~= slots.dom().remove(peer));
    lemma_add(rest, peer, slots[peer]);
    assert(rest.insert(peer, slots[peer]) =~= slots);
}

/// Changing a peer's slot moves one from the old slot's kind to the new one's.
proof fn lemma_change(slots: Map<Seq<u8>, PhysicalSlot>, peer: Seq<u8>, slot: PhysicalSlot)
    requires
        slots.dom().finite(),
        slots.dom().contains(peer),
    ensures
        all_moved(
            slots,
            slots.insert(peer, slot),
            Some(kind_of(slots[peer])),
            Some(kind_of(slot)),
        ),
{
    let rest = slots.remove(peer);
    lemma_take(slots, peer);
    lemma_add(rest, peer, slot);
    assert(rest.insert(peer, slot) =~= slots.insert(peer, slot));
}

/// The physical peer connections of a transport, as a mathematical value.
pub struct Physical {
    pub capacity: nat,
    pub accepting: bool,
    pub next_generation: u64,
    pub slots: Map<Seq<u8>, PhysicalSlot>,
    /// The peers for which an offer is being handled.
    pub offer_handlers: Set<Seq<u8>>,
    pub created_total: nat,
    pub closed_total: nat,
    pub peak: nat,
    pub straggler_waiters: usize,
    pub ice_stop_failures: u64,
}

impl Physical {
    /// Room for `capacity` connections, of which there never was one.
    pub open spec fn unused(capacity: nat) -> Physical {
        Physical {
            capacity,
            accepting: true,
            next_generation: 0,
            slots: Map::empty(),
            offer_handlers: Set::empty(),
            created_total: 0,
            closed_total: 0,
            peak: 0,
            straggler_waiters: 0,
            ice_stop_failures: 0,
        }
    }

    /// The number of occupied slots.
    pub open spec fn occupied(self) -> nat {
        self.slots.dom().len()
    }

    /// Whether the peer's slot has this generation and phase.
    pub open spec fn holds(self, peer: Seq<u8>, generation: u64, phase: PhysicalPhase) -> bool {
        &&& self.slots.dom().contains(peer)
        &&& self.slots[peer].generation == generation
        &&& self.slots[peer].phase == phase
    }

    /// Whether the peer's slot is being closed and the close was not given up.
    pub open spec fn being_closed(self, peer: Seq<u8>, generation: u64) -> bool {
        self.holds(peer, generation, PhysicalPhase::Closing) && !self.slots[peer].abandoned
    }

    pub open spec fn phase_of(self, peer: Seq<u8>) -> Option<PhysicalPhase> {
        if self.slots.dom().contains(peer) {
            Some(self.slots[peer].phase)
        } else {
            None
        }
    }

    /// The same resources with one slot given, changed or replaced.
    pub open spec fn with_slot(self, peer: Seq<u8>, slot: PhysicalSlot) -> Physical {
        Physical { slots: self.slots.insert(peer, slot), ..self }
    }

    /// The same resources without a peer's slot.
    pub open spec fn without_slot(self, peer: Seq<u8>) -> Physical {
        Physical { slots: self.slots.remove(peer), ..self }
    }

    /// Why a slot for a peer cannot be reserved, if it cannot.
    pub open spec fn refusal(self, peer: Seq<u8>) -> Option<PhysicalReserveError> {
        if !self.accepting {
            Some(PhysicalReserveError::Stopped)
        } else if self.slots.dom().contains(peer) {
            Some(PhysicalReserveError::PeerBusy(self.slots[peer].phase))
        } else if self.occupied() >= self.capacity {
            Some(PhysicalReserveError::Capacity)
        } else {
            None
        }
    }

    /// The resources after a slot for a peer was reserved.
    pub open spec fn reserved(self, peer: Seq<u8>) -> Physical {
        Physical {
            next_generation: (if self.next_generation == u64::MAX {
                0
            } else {
                (self.next_generation + 1) as u64
            }),
            peak: (if self.occupied() + 1 > self.peak {
                self.occupied() + 1
            } else {
                self.peak
            }),
            ..self.with_slot(
                peer,
                PhysicalSlot {
                    generation: self.next_generation,
                    phase: PhysicalPhase::Creating,
                    replacement_waiter: false,
                    abandoned: false,
                },
            )
        }
    }

    /// The resources after a reserved connection was created.
    pub open spec fn activated(self, peer: Seq<u8>) -> Physical {
        Physical {
            created_total: self.created_total + 1,
            ..self.with_slot(
                peer,
                PhysicalSlot { phase: PhysicalPhase::Active, ..self.slots[peer] },
            )
        }
    }

    /// The resources after an active connection began to close.
    pub open spec fn closing(self, peer: Seq<u8>) -> Physical {
        self.with_slot(
            peer,
            PhysicalSlot { phase: PhysicalPhase::Closing, abandoned: false, ..self.slots[peer] },
        )
    }

    /// The resources after a close completed.
    pub open spec fn closed(self, peer: Seq<u8>) -> Physical {
        Physical { closed_total: self.closed_total + 1, ..self.without_slot(peer) }
    }

    /// The resources after a close was given up.
    pub open spec fn given_up(self, peer: Seq<u8>) -> Physical {
        self.with_slot(peer, PhysicalSlot { abandoned: true, ..self.slots[peer] })
    }

    /// The resources after a replacement began or ended its wait.
    pub open spec fn with_waiter(self, peer: Seq<u8>, waiting: bool) -> Physical {
        self.with_slot(peer, PhysicalSlot { replacement_waiter: waiting, ..self.slots[peer] })
    }
}

/// A reserved slot whose connection is not yet created.
#[derive(Debug)]
pub struct PhysicalReservation {
    pub addr: TransportAddr,
    pub generation: u64,
}

/// A created connection's slot.
#[derive(Debug)]
pub struct PhysicalLease {
    pub addr: TransportAddr,
    pub generation: u64,
}

/// The slot of a connection that is being closed.
#[derive(Debug)]
pub struct PhysicalCleanupGuard {
    pub addr: TransportAddr,
    pub generation: u64,
}

/// A replacement's wait for a peer's slot.
#[derive(Debug)]
pub struct PhysicalReleaseWait {
    pub addr: TransportAddr,
    pub generation: u64,
}

/// How a wait for a peer's slot begins.
#[derive(Debug)]
pub enum ReleaseWaitStart {
    /// Nothing to wait for: whether the slot is free.
    Settled(bool),
    /// The slot is being closed.
    Waiting(PhysicalReleaseWait),
}

/// The physical peer connections of a transport.
pub struct PhysicalResources {
    capacity: usize,
    permits: usize,
    accepting: bool,
    next_generation: u64,
    peers: AddrMap<PhysicalSlot>,
    offer_handlers: AddrMap<()>,
    creating: usize,
    active: usize,
    closing: usize,
    cleanup_inflight: usize,
    abandoned: usize,
    created_total: u64,
    closed_total: u64,
    peak_physical: usize,
    straggler_waiters: usize,
    ice_stop_failures_total: u64,
}

impl View for PhysicalResources {
    type V = Physical;

    closed spec fn view(&self) -> Physical {
        Physical {
            capacity: self.capacity as nat,
            accepting: self.accepting,
            next_generation: self.next_generation,
            slots: self.peers@,
            offer_handlers: self.offer_handlers@.dom(),
            created_total: self.created_total as nat,
            closed_total: self.closed_total as nat,
            peak: self.peak_physical as nat,
            straggler_waiters: self.straggler_waiters,
            ice_stop_failures: self.ice_stop_failures_total,
        }
    }
}

impl PhysicalResources {
    /// Every counter agrees with the slots, and capacity is respected.
    pub closed spec fn inv(self) -> bool {
        &&& self.peers.inv()
        &&& self.offer_handlers.inv()
        &&& self.peers@.dom().finite()
        &&& forall|peer: Seq<u8>|
            self.peers@.dom().contains(peer) && (#[trigger] self.peers@[peer]).abandoned
                ==> self.peers@[peer].phase == PhysicalPhase::Closing
        &&& self.creating == count_of(self.peers@, SlotKind::Creating)
        &&& self.active == count_of(self.peers@, SlotKind::Active)
        &&& self.cleanup_inflight == count_of(self.peers@, SlotKind::Inflight)
        &&& self.abandoned == count_of(self.peers@, SlotKind::Abandoned)
        &&& self.closing == self.cleanup_inflight + self.abandoned
        &&& self.permits + self.creating + self.active + self.closing == self.capacity
        &&& self.created_total - self.closed_total == self.active + self.closing
        &&& self.creating + self.active + self.closing <= self.peak_physical <= self.capacity
    }

    /// The slots are finitely many, each of one kind, and no more than the
    /// capacity; so is the highest count that there ever was.
    pub proof fn conserved(self)
        requires
            self.inv(),
        ensures
            self@.slots.dom().finite(),
            self@.occupied() == count_of(self@.slots, SlotKind::Creating) + count_of(
                self@.slots,
                SlotKind::Active,
            ) + count_of(self@.slots, SlotKind::Inflight) + count_of(
                self@.slots,
                SlotKind::Abandoned,
            ),
            self@.occupied() <= self@.peak <= self@.capacity,
            self@.created_total - self@.closed_total == self@.occupied() - count_of(
                self@.slots,
                SlotKind::Creating,
            ),
    {
        lemma_partition(self@.slots);
    }

    /// The snapshot of some resources.
    pub closed spec fn spec_snapshot(self) -> WebRtcResourceSnapshot {
        WebRtcResourceSnapshot {
            capacity: self.capacity,
            creating: self.creating,
            active: self.active,
            closing: self.closing,
            cleanup_inflight: self.cleanup_inflight,
            abandoned: self.abandoned,
            straggler_waiters: self.straggler_waiters,
            created_total: self.created_total,
            closed_total: self.closed_total,
            ice_stop_failures_total: self.ice_stop_failures_total,
            peak_physical: self.peak_physical,
        }
    }

    /// Resources with room for `capacity` connections and none of them in use.
    pub fn new(capacity: usize) -> (resources: PhysicalResources)
        ensures
            resources.inv(),
            resources@ == Physical::unused(capacity as nat),
    {
        let resources = PhysicalResources {
            capacity,
            permits: capacity,
            accepting: true,
            next_generation: 0,
            peers: AddrMap::new(),
            offer_handlers: AddrMap::new(),
            creating: 0,
            active: 0,
            closing: 0,
            cleanup_inflight: 0,
            abandoned: 0,
            created_total: 0,
            closed_total: 0,
            peak_physical: 0,
            straggler_waiters: 0,
            ice_stop_failures_total: 0,
        };
        proof {
            let empty = Map::<Seq<u8>, PhysicalSlot>::empty();
            lemma_partition(empty);
            assert(resources.offer_handlers@.dom() =~= Set::<Seq<u8>>::empty());
        }
        resources
    }

    /// Counters of the resources, consistent with one another.
    pub fn snapshot(&self) -> (snapshot: WebRtcResourceSnapshot)
        requires
            self.inv(),
        ensures
            snapshot == self.spec_snapshot(),
            snapshot.conserved(),
            snapshot.capacity == self@.capacity,
            snapshot.creating == count_of(self@.slots, SlotKind::Creating),
            snapshot.active == count_of(self@.slots, SlotKind::Active),
            snapshot.cleanup_inflight == count_of(self@.slots, SlotKind::Inflight),
            snapshot.abandoned == count_of(self@.slots, SlotKind::Abandoned),
            snapshot.straggler_waiters == self@.straggler_waiters,
            snapshot.created_total == self@.created_total,
            snapshot.closed_total == self@.closed_total,
            snapshot.ice_stop_failures_total == self@.ice_stop_failures,
            snapshot.peak_physical == self@.peak,
    {
        WebRtcResourceSnapshot {
            capacity: self.capacity,
            creating: self.creating,
            active: self.active,
            closing: self.closing,
            cleanup_inflight: self.cleanup_inflight,
            abandoned: self.abandoned,
            straggler_waiters: self.straggler_waiters,
            created_total: self.created_total,
            closed_total: self.closed_total,
            ice_stop_failures_total: self.ice_stop_failures_total,
            peak_physical: self.peak_physical,
        }
    }

    pub fn start_accepting(&mut self)
        requires
            old(self).inv(),
        ensures
            final(self).inv(),
            final(self)@ == (Physical { accepting: true, ..old(self)@ }),
    {
        self.accepting = true;
    }

    pub fn stop_accepting(&mut self)
        requires
            old(self).inv(),
        ensures
            final(self).inv(),
            final(self)@ == (Physical { accepting: false, ..old(self)@ }),
    {
        self.accepting = false;
    }

    pub fn is_accepting(&self) -> (yes: bool)
        ensures
            yes == self@.accepting,
    {
        self.accepting
    }

    pub fn phase(&self, addr: &TransportAddr) -> (phase: Option<PhysicalPhase>)
        requires
            self.inv(),
        ensures
            phase == self@.phase_of(addr@),
    {
        match self.peers.get(addr) {
            Some(slot) => Some(slot.phase),
            None => None,
        }
    }

    pub fn generation(&self, addr: &TransportAddr) -> (generation: Option<u64>)
        requires
            self.inv(),
        ensures
            match generation {
                Some(g) => self@.slots.dom().contains(addr@) && g == self@.slots[addr@].generation,
                None => !self@.slots.dom().contains(addr@),
            },
    {
        match self.peers.get(addr) {
            Some(slot) => Some(slot.generation),
            None => None,
        }
    }

    pub fn has_peer_release_waiter(&self, addr: &TransportAddr) -> (yes: bool)
        requires
            self.inv(),
        ensures
            yes == (self@.slots.dom().contains(addr@) && self@.slots[addr@].replacement_waiter),
    {
        match self.peers.get(addr) {
            Some(slot) => slot.replacement_waiter,
            None => false,
        }
    }

    /// The number of slots that can still be reserved.
    pub fn available_permits(&self) -> (n: usize)
        requires
            self.inv(),
        ensures
            n == self@.capacity - self@.occupied(),
    {
        proof {
            lemma_partition(self.peers@);
        }
        self.permits
    }

    /// Reserves a slot for a peer that has none.
    pub fn reserve(&mut self, addr: &TransportAddr) -> (result: Result<
        PhysicalReservation,
        PhysicalReserveError,
    >)
        requires
            old(self).inv(),
        ensures
            final(self).inv(),
            match result {
                Ok(reservation) => {
                    &&& old(self)@.refusal(addr@) is None
                    &&& final(self)@ == old(self)@.reserved(addr@)
                    &&& reservation.addr@ == addr@
                    &&& reservation.generation == old(self)@.next_generation
                },
                Err(error) => {
                    &&& old(self)@.refusal(addr@) == Some(error)
                    &&& final(self)@ == old(self)@
                },
            },
    {
        proof {
            lemma_partition(self.peers@);
        }
        if !self.accepting {
            return Err(PhysicalReserveError::Stopped);
        }
        match self.peers.get(addr) {
            Some(slot) => {
                return Err(PhysicalReserveError::PeerBusy(slot.phase));
            },
            None => {},
        }
        if self.permits == 0 {
            return Err(PhysicalReserveError::Capacity);
        }
        let generation: u64 = self.next_generation;
        let slot = PhysicalSlot {
            generation,
            phase: PhysicalPhase::Creating,
            replacement_waiter: false,
            abandoned: false,
        };
        proof {
            lemma_add(self.peers@, addr@, slot);
            lemma_partition(self.peers@.insert(addr@, slot));
        }
        self.permits = self.permits - 1;
        self.next_generation = if generation == u64::MAX {
            0
        } else {
            generation + 1
        };
        self.peers.insert(addr.clone(), slot);
        self.creating = self.creating + 1;
        let physical: usize = self.creating + self.active + self.closing;
        if physical > self.peak_physical {
            self.peak_physical = physical;
        }
        Ok(PhysicalReservation { addr: addr.clone(), generation })
    }

    fn set_slot(&mut self, addr: &TransportAddr, slot: PhysicalSlot)
        requires
            old(self).peers.inv(),
        ensures
            final(self).peers.inv(),
            final(self).peers@ == old(self).peers@.insert(addr@, slot),
            *final(self) == (PhysicalResources { peers: final(self).peers, ..*old(self) }),
    {
        self.peers.insert(addr.clone(), slot);
    }

    /// Turns a reservation into a lease once the connection is created.
    pub fn into_lease(&mut self, reservation: PhysicalReservation) -> (lease: PhysicalLease)
        requires
            old(self).inv(),
            old(self)@.holds(
                reservation.addr@,
                reservation.generation,
                PhysicalPhase::Creating,
            ),
            old(self)@.created_total < u64::MAX,
        ensures
            final(self).inv(),
            final(self)@ == old(self)@.activated(reservation.addr@),
            lease.addr@ == reservation.addr@,
            lease.generation == reservation.generation,
            final(self)@.holds(lease.addr@, lease.generation, PhysicalPhase::Active),
    {
        let addr = reservation.addr;
        if let Some(slot) = self.peers.get(&addr) {
            let changed = PhysicalSlot {
                generation: slot.generation,
                phase: PhysicalPhase::Active,
                replacement_waiter: slot.replacement_waiter,
                abandoned: slot.abandoned,
            };
            proof {
                lemma_change(self.peers@, addr@, changed);
                assert(kind_of(self.peers@[addr@]) == SlotKind::Creating);
                assert(!changed.abandoned);
            }
            self.set_slot(&addr, changed);
            self.creating = self.creating - 1;
            self.active = self.active + 1;
            self.created_total = self.created_total + 1;
        }
        PhysicalLease { addr, generation: reservation.generation }
    }

    /// Gives a reservation back without having created a connection.
    pub fn cancel(&mut self, reservation: PhysicalReservation)
        requires
            old(self).inv(),
        ensures
            final(self).inv(),
            final(self)@ == if old(self)@.holds(
                reservation.addr@,
                reservation.generation,
                PhysicalPhase::Creating,
            ) {
                old(self)@.without_slot(reservation.addr@)
            } else {
                old(self)@
            },
    {
        let owned = match self.peers.get(&reservation.addr) {
            Some(slot) => slot.generation == reservation.generation && slot.phase
                == PhysicalPhase::Creating,
            None => false,
        };
        if owned {
            proof {
                lemma_take(self.peers@, reservation.addr@);
                assert(kind_of(self.peers@[reservation.addr@]) == SlotKind::Creating);
            }
            self.peers.remove(&reservation.addr);
            self.creating = self.creating - 1;
            self.permits = self.permits + 1;
        }
    }

    /// Starts closing an active connection.
    pub fn begin_cleanup(&mut self, lease: PhysicalLease) -> (guard: PhysicalCleanupGuard)
        requires
            old(self).inv(),
            old(self)@.holds(lease.addr@, lease.generation, PhysicalPhase::Active),
        ensures
            final(self).inv(),
            final(self)@ == old(self)@.closing(lease.addr@),
            guard.addr@ == lease.addr@,
            guard.generation == lease.generation,
            final(self)@.being_closed(guard.addr@, guard.generation),
    {
        let addr = lease.addr;
        if let Some(slot) = self.peers.get(&addr) {
            let changed = PhysicalSlot {
                generation: slot.generation,
                phase: PhysicalPhase::Closing,
                replacement_waiter: slot.replacement_waiter,
                abandoned: false,
            };
            proof {
                lemma_change(self.peers@, addr@, changed);
                assert(kind_of(self.peers@[addr@]) == SlotKind::Active);
                assert(kind_of(changed) == SlotKind::Inflight);
            }
            self.set_slot(&addr, changed);
            self.active = self.active - 1;
            self.closing = self.closing + 1;
            self.cleanup_inflight = self.cleanup_inflight + 1;
        }
        PhysicalCleanupGuard { addr, generation: lease.generation }
    }

    /// Ends a close: the slot is free again.
    pub fn complete(&mut self, guard: PhysicalCleanupGuard)
        requires
            old(self).inv(),
            old(self)@.being_closed(guard.addr@, guard.generation),
        ensures
            final(self).inv(),
            final(self)@ == old(self)@.closed(guard.addr@),
    {
        proof {
            lemma_take(self.peers@, guard.addr@);
            assert(kind_of(self.peers@[guard.addr@]) == SlotKind::Inflight);
        }
        self.peers.remove(&guard.addr);
        self.cleanup_inflight = self.cleanup_inflight - 1;
        self.closing = self.closing - 1;
        self.closed_total = self.closed_total + 1;
        self.permits = self.permits + 1;
    }

    /// Gives a close up: the slot stays occupied for good.
    pub fn abandon(&mut self, guard: PhysicalCleanupGuard)
        requires
            old(self).inv(),
            old(self)@.being_closed(guard.addr@, guard.generation),
        ensures
            final(self).inv(),
            final(self)@ == old(self)@.given_up(guard.addr@),
    {
        if let Some(slot) = self.peers.get(&guard.addr) {
            let changed = PhysicalSlot {
                generation: slot.generation,
                phase: slot.phase,
                replacement_waiter: slot.replacement_waiter,
                abandoned: true,
            };
            proof {
                lemma_change(self.peers@, guard.addr@, changed);
                assert(kind_of(self.peers@[guard.addr@]) == SlotKind::Inflight);
                assert(kind_of(changed) == SlotKind::Abandoned);
            }
            self.set_slot(&guard.addr, changed);
            self.cleanup_inflight = self.cleanup_inflight - 1;
            self.abandoned = self.abandoned + 1;
        }
    }

    /// Claims the handling of a peer's offer; one handler per peer at a time.
    pub fn try_claim_offer(&mut self, addr: &TransportAddr) -> (claimed: bool)
        requires
            old(self).inv(),
        ensures
            final(self).inv(),
            claimed == (old(self)@.accepting && !old(self)@.offer_handlers.contains(addr@)),
            final(self)@ == (Physical {
                offer_handlers: (if claimed {
                    old(self)@.offer_handlers.insert(addr@)
                } else {
                    old(self)@.offer_handlers
                }),
                ..old(self)@
            }),
    {
        if !self.accepting || self.offer_handlers.contains(addr) {
            return false;
        }
        self.offer_handlers.insert(addr.clone(), ());
        assert(self.offer_handlers@.dom() =~= old(self).offer_handlers@.dom().insert(addr@));
        true
    }

    /// Ends the handling of a peer's offer.
    pub fn release_offer(&mut self, addr: &TransportAddr)
        requires
            old(self).inv(),
        ensures
            final(self).inv(),
            final(self)@ == (Physical {
                offer_handlers: old(self)@.offer_handlers.remove(addr@),
                ..old(self)@
            }),
    {
        self.offer_handlers.remove(addr);
        assert(self.offer_handlers@.dom() =~= old(self).offer_handlers@.dom().remove(addr@));
    }

    pub fn has_offer_handler(&self, addr: &TransportAddr) -> (yes: bool)
        requires
            self.inv(),
        ensures
            yes == self@.offer_handlers.contains(addr@),
    {
        self.offer_handlers.contains(addr)
    }

    /// Begins a replacement's wait for a peer's slot. Only one replacement
    /// waits for a slot, and only while it is being closed.
    pub fn begin_release_wait(&mut self, addr: &TransportAddr) -> (start: ReleaseWaitStart)
        requires
            old(self).inv(),
        ensures
            final(self).inv(),
            match start {
                ReleaseWaitStart::Settled(free) => {
                    &&& final(self)@ == old(self)@
                    &&& if old(self)@.slots.dom().contains(addr@) {
                        !free && (old(self)@.slots[addr@].phase != PhysicalPhase::Closing || old(
                            self,
                        )@.slots[addr@].replacement_waiter)
                    } else {
                        free == old(self)@.accepting
                    }
                },
                ReleaseWaitStart::Waiting(wait) => {
                    &&& old(self)@.phase_of(addr@) == Some(PhysicalPhase::Closing)
                    &&& !old(self)@.slots[addr@].replacement_waiter
                    &&& wait.addr@ == addr@
                    &&& wait.generation == old(self)@.slots[addr@].generation
                    &&& final(self)@ == old(self)@.with_waiter(addr@, true)
                },
            },
    {
        match self.peers.get(addr) {
            None => ReleaseWaitStart::Settled(self.accepting),
            Some(slot) => {
                let found = *slot;
                if found.phase != PhysicalPhase::Closing || found.replacement_waiter {
                    ReleaseWaitStart::Settled(false)
                } else {
                    let changed = PhysicalSlot {
                        generation: found.generation,
                        phase: found.phase,
                        replacement_waiter: true,
                        abandoned: found.abandoned,
                    };
                    proof {
                        lemma_change(self.peers@, addr@, changed);
                    }
                    self.set_slot(addr, changed);
                    ReleaseWaitStart::Waiting(
                        PhysicalReleaseWait { addr: addr.clone(), generation: found.generation },
                    )
                }
            },
        }
    }

    /// Looks at the awaited slot: whether it became free, or nothing while the
    /// same connection is still being closed. A slot that was given to a newer
    /// connection counts as lost.
    pub fn check_release(&self, wait: &PhysicalReleaseWait) -> (outcome: Option<bool>)
        requires
            self.inv(),
        ensures
            outcome == if !self@.accepting {
                Some(false)
            } else if !self@.slots.dom().contains(wait.addr@) {
                Some(true)
            } else if self@.holds(wait.addr@, wait.generation, PhysicalPhase::Closing) {
                None
            } else {
                Some(false)
            },
    {
        if !self.accepting {
            return Some(false);
        }
        match self.peers.get(&wait.addr) {
            None => Some(true),
            Some(slot) => {
                if slot.generation != wait.generation {
                    Some(false)
                } else if slot.phase == PhysicalPhase::Closing {
                    None
                } else {
                    Some(false)
                }
            },
        }
    }

    /// Ends a replacement's wait.
    pub fn end_release_wait(&mut self, wait: PhysicalReleaseWait)
        requires
            old(self).inv(),
        ensures
            final(self).inv(),
            final(self)@ == if old(self)@.slots.dom().contains(wait.addr@) && old(
                self,
            )@.slots[wait.addr@].generation == wait.generation {
                old(self)@.with_waiter(wait.addr@, false)
            } else {
                old(self)@
            },
    {
        if let Some(slot) = self.peers.get(&wait.addr) {
            let found = *slot;
            if found.generation == wait.generation {
                let changed = PhysicalSlot {
                    generation: found.generation,
                    phase: found.phase,
                    replacement_waiter: false,
                    abandoned: found.abandoned,
                };
                proof {
                    lemma_change(self.peers@, wait.addr@, changed);
                }
                self.set_slot(&wait.addr, changed);
            }
        }
    }

    /// Whether no slot is occupied.
    pub fn is_quiescent(&self) -> (yes: bool)
        requires
            self.inv(),
        ensures
            yes == (self@.slots == Map::<Seq<u8>, PhysicalSlot>::empty()),
            yes == (self@.occupied() == 0),
    {
        proof {
            lemma_partition(self.peers@);
            if self.peers@.dom().len() == 0 {
                assert(self.peers@.dom() =~= Set::<Seq<u8>>::empty());
                assert(self.peers@ =~= Map::<Seq<u8>, PhysicalSlot>::empty());
            }
        }
        self.creating == 0 && self.active == 0 && self.closing == 0
    }

    /// Counts an ICE stop that returned an error.
    pub fn note_ice_stop_failure(&mut self)
        requires
            old(self).inv(),
        ensures
            final(self).inv(),
            final(self)@ == (Physical {
                ice_stop_failures: wrapping_next(old(self)@.ice_stop_failures),
                ..old(self)@
            }),
    {
        self.ice_stop_failures_total = self.ice_stop_failures_total.wrapping_add(1);
    }

    /// Counts a close that starts waiting for escaped references.
    pub fn begin_straggler_wait(&mut self)
        requires
            old(self).inv(),
            old(self)@.straggler_waiters < usize::MAX,
        ensures
            final(self).inv(),
            final(self)@ == (Physical {
                straggler_waiters: (old(self)@.straggler_waiters + 1) as usize,
                ..old(self)@
            }),
    {
        self.straggler_waiters = self.straggler_waiters + 1;
    }

    /// Counts a close that has stopped waiting for escaped references.
    pub fn end_straggler_wait(&mut self)
        requires
            old(self).inv(),
            old(self)@.straggler_waiters > 0,
        ensures
            final(self).inv(),
            final(self)@ == (Physical {
                straggler_waiters: (old(self)@.straggler_waiters - 1) as usize,
                ..old(self)@
            }),
    {
        self.straggler_waiters = self.straggler_waiters - 1;
    }
}

/// The next value of a counter that starts again at zero after its maximum.
pub open spec fn wrapping_next(n: u64) -> u64 {
    if n == u64::MAX {
        0
    } else {
        (n + 1) as u64
    }
}

// ---------------------------------------------------------------------------
// Laws
// ---------------------------------------------------------------------------

/// A reservation that is given back leaves every slot as it was.
pub proof fn reserve_then_cancel_frees_the_slot(physical: Physical, peer: Seq<u8>)
    requires
        physical.refusal(peer) is None,
    ensures
        physical.reserved(peer).without_slot(peer).slots == physical.slots,
{
    assert(physical.reserved(peer).without_slot(peer).slots =~= physical.slots);
}

/// A connection that goes through its whole life leaves every slot as it was
/// and adds one to both totals.
pub proof fn whole_life_frees_the_slot(physical: Physical, peer: Seq<u8>)
    requires
        physical.refusal(peer) is None,
    ensures
        ({
            let last = physical.reserved(peer).activated(peer).closing(peer).closed(peer);
            &&& last.slots == physical.slots
            &&& last.created_total == physical.created_total + 1
            &&& last.closed_total == physical.closed_total + 1
        }),
{
    let last = physical.reserved(peer).activated(peer).closing(peer).closed(peer);
    assert(last.slots =~= physical.slots);
}

/// While a peer has a slot, no second one is reserved for it.
pub proof fn one_slot_per_peer(physical: Physical, peer: Seq<u8>)
    requires
        physical.slots.dom().contains(peer),
    ensures
        physical.refusal(peer) is Some,
{
}

/// A close that was given up keeps its slot occupied: the peer stays busy and
/// the number of occupied slots does not change.
pub proof fn giving_up_keeps_the_slot(physical: Physical, peer: Seq<u8>, generation: u64)
    requires
        physical.slots.dom().finite(),
        physical.accepting,
        physical.being_closed(peer, generation),
    ensures
        physical.given_up(peer).occupied() == physical.occupied(),
        physical.given_up(peer).refusal(peer) == Some(
            PhysicalReserveError::PeerBusy(PhysicalPhase::Closing),
        ),
{
    assert(physical.given_up(peer).slots.dom() =~= physical.slots.dom());
}

/// With every slot occupied, any other peer is refused for want of capacity.
pub proof fn full_capacity_refuses(physical: Physical, peer: Seq<u8>)
    requires
        physical.accepting,
        !physical.slots.dom().contains(peer),
        physical.occupied() == physical.capacity,
    ensures
        physical.refusal(peer) == Some(PhysicalReserveError::Capacity),
{
}

/// Successive reservations for one peer have different generations, until the
/// generation counter has run through all its values.
pub proof fn generations_differ(physical: Physical, peer: Seq<u8>, other: Seq<u8>)
    ensures
        physical.reserved(peer).next_generation != physical.next_generation,
        physical.reserved(peer).reserved(other).slots[other].generation != physical.reserved(
            peer,
        ).slots[peer].generation,
{
}

/// A slot is counted by its phase; a closing one as abandoned exactly where its
/// close was given up.
pub proof fn slots_are_counted_by_their_phase(
    slots: Map<Seq<u8>, PhysicalSlot>,
    peer: Seq<u8>,
    kind: SlotKind,
)
    requires
        slots.dom().contains(peer),
    ensures
        of_kind(slots, kind).contains(peer) <==> match kind {
            SlotKind::Creating => slots[peer].phase == PhysicalPhase::Creating,
            SlotKind::Active => slots[peer].phase == PhysicalPhase::Active,
            SlotKind::Inflight => slots[peer].phase == PhysicalPhase::Closing
                && !slots[peer].abandoned,
            SlotKind::Abandoned => slots[peer].phase == PhysicalPhase::Closing
                && slots[peer].abandoned,
        },
        count_of(slots, kind) == of_kind(slots, kind).len(),
        forall|other: Seq<u8>|
            !slots.dom().contains(other) ==> !(#[trigger] of_kind(slots, kind).contains(other)),
{
}

/// A slot is reserved exactly for a peer that has none, where connections are
/// accepted and fewer peers have one than there is room for. Otherwise the
/// answer tells the first of these that does not hold.
pub proof fn slots_are_reserved_where_there_is_room(
    physical: Physical,
    peer: Seq<u8>,
    phase: PhysicalPhase,
)
    ensures
        physical.refusal(peer) is None <==> physical.accepting && !physical.slots.dom().contains(
            peer,
        ) && physical.slots.dom().len() < physical.capacity,
        physical.refusal(peer) == Some(PhysicalReserveError::Stopped) <==> !physical.accepting,
        physical.refusal(peer) == Some(PhysicalReserveError::PeerBusy(phase)) <==>
            physical.accepting && physical.slots.dom().contains(peer) && physical.slots[peer].phase
            == phase,
        physical.refusal(peer) == Some(PhysicalReserveError::Capacity) <==> physical.accepting
            && !physical.slots.dom().contains(peer) && physical.slots.dom().len()
            >= physical.capacity,
{
}

/// Whatever happens to the slot of one peer, the slots of the others stay.
pub proof fn other_slots_stay(physical: Physical, peer: Seq<u8>, other: Seq<u8>, waiting: bool)
    requires
        peer != other,
    ensures
        ({
            let kept = |after: Physical|
                after.slots.dom().contains(other) == physical.slots.dom().contains(other)
                    && after.slots[other] == physical.slots[other] && after.capacity
                    == physical.capacity && after.accepting == physical.accepting
                    && after.offer_handlers == physical.offer_handlers && after.straggler_waiters
                    == physical.straggler_waiters && after.ice_stop_failures
                    == physical.ice_stop_failures;
            &&& kept(physical.reserved(peer))
            &&& kept(physical.activated(peer))
            &&& kept(physical.closing(peer))
            &&& kept(physical.closed(peer))
            &&& kept(physical.given_up(peer))
            &&& kept(physical.with_waiter(peer, waiting))
            &&& kept(physical.without_slot(peer))
        }),
{
}

/// The slot of a peer through its life: it is reserved under the next
/// generation, becomes active and is closed under the same one, and only its
/// phase and the marks of the close change on the way.
pub proof fn slots_go_through_their_phases(physical: Physical, peer: Seq<u8>, waiting: bool)
    ensures
        physical.reserved(peer).slots.dom() == physical.slots.dom().insert(peer),
        physical.reserved(peer).slots[peer].generation == physical.next_generation,
        physical.reserved(peer).slots[peer].phase == PhysicalPhase::Creating,
        !physical.reserved(peer).slots[peer].replacement_waiter,
        !physical.reserved(peer).slots[peer].abandoned,
        physical.activated(peer).slots.dom() == physical.slots.dom().insert(peer),
        physical.activated(peer).slots[peer].generation == physical.slots[peer].generation,
        physical.activated(peer).slots[peer].phase == PhysicalPhase::Active,
        physical.activated(peer).slots[peer].replacement_waiter
            == physical.slots[peer].replacement_waiter,
        physical.activated(peer).slots[peer].abandoned == physical.slots[peer].abandoned,
        physical.closing(peer).slots.dom() == physical.slots.dom().insert(peer),
        physical.closing(peer).slots[peer].generation == physical.slots[peer].generation,
        physical.closing(peer).slots[peer].phase == PhysicalPhase::Closing,
        physical.closing(peer).slots[peer].replacement_waiter
            == physical.slots[peer].replacement_waiter,
        !physical.closing(peer).slots[peer].abandoned,
        physical.given_up(peer).slots.dom() == physical.slots.dom().insert(peer),
        physical.given_up(peer).slots[peer].generation == physical.slots[peer].generation,
        physical.given_up(peer).slots[peer].phase == physical.slots[peer].phase,
        physical.given_up(peer).slots[peer].replacement_waiter
            == physical.slots[peer].replacement_waiter,
        physical.given_up(peer).slots[peer].abandoned,
        physical.with_waiter(peer, waiting).slots.dom() == physical.slots.dom().insert(peer),
        physical.with_waiter(peer, waiting).slots[peer].generation
            == physical.slots[peer].generation,
        physical.with_waiter(peer, waiting).slots[peer].phase == physical.slots[peer].phase,
        physical.with_waiter(peer, waiting).slots[peer].replacement_waiter == waiting,
        physical.with_waiter(peer, waiting).slots[peer].abandoned
            == physical.slots[peer].abandoned,
        physical.closed(peer).slots.dom() == physical.slots.dom().remove(peer),
        physical.without_slot(peer).slots.dom() == physical.slots.dom().remove(peer),
{
    assert(physical.closed(peer).slots.dom() =~= physical.slots.dom().remove(peer));
    assert(physical.reserved(peer).slots.dom() =~= physical.slots.dom().insert(peer));
}

/// Every created connection and every completed close is counted once, and
/// nothing else is; the peak is the largest number of slots that there were; a
/// generation is used up by a reservation alone.
pub proof fn lives_are_counted(physical: Physical, peer: Seq<u8>, waiting: bool)
    requires
        physical.slots.dom().finite(),
        !physical.slots.dom().contains(peer),
    ensures
        ({
            let reserved = physical.reserved(peer);
            let active = reserved.activated(peer);
            let closing = active.closing(peer);
            let given_up = closing.given_up(peer);
            let waiting = closing.with_waiter(peer, waiting);
            let closed = closing.closed(peer);
            let freed = reserved.without_slot(peer);
            &&& reserved.slots.dom().len() == physical.slots.dom().len() + 1
            &&& reserved.peak >= physical.peak
            &&& reserved.peak >= reserved.slots.dom().len()
            &&& reserved.peak == physical.peak || reserved.peak == reserved.slots.dom().len()
            &&& active.peak == reserved.peak && closing.peak == reserved.peak && closed.peak
                == reserved.peak && freed.peak == reserved.peak && given_up.peak == reserved.peak
                && waiting.peak == reserved.peak
            &&& reserved.created_total == physical.created_total
            &&& freed.created_total == physical.created_total
            &&& active.created_total == physical.created_total + 1
            &&& closing.created_total == active.created_total && closed.created_total
                == active.created_total && given_up.created_total == active.created_total
                && waiting.created_total == active.created_total
            &&& reserved.closed_total == physical.closed_total && freed.closed_total
                == physical.closed_total && active.closed_total == physical.closed_total
                && closing.closed_total == physical.closed_total && given_up.closed_total
                == physical.closed_total && waiting.closed_total == physical.closed_total
            &&& closed.closed_total == physical.closed_total + 1
            &&& reserved.next_generation == if physical.next_generation == 0xffff_ffff_ffff_ffff {
                0int
            } else {
                physical.next_generation + 1
            }
            &&& active.next_generation == reserved.next_generation && closing.next_generation
                == reserved.next_generation && closed.next_generation == reserved.next_generation
                && freed.next_generation == reserved.next_generation && given_up.next_generation
                == reserved.next_generation && waiting.next_generation == reserved.next_generation
            &&& closed.slots.dom() == physical.slots.dom()
            &&& freed.slots.dom() == physical.slots.dom()
        }),
{
    let reserved = physical.reserved(peer);
    assert(reserved.slots.dom() =~= physical.slots.dom().insert(peer));
    assert(reserved.without_slot(peer).slots.dom() =~= physical.slots.dom());
    assert(reserved.activated(peer).closing(peer).closed(peer).slots.dom() =~= physical.slots.dom());
}

/// A slot is held by the generation and in the phase that it has, and by no
/// other; one whose close was given up is no longer being closed.
pub proof fn slots_are_held_by_their_generation(
    physical: Physical,
    peer: Seq<u8>,
    generation: u64,
    phase: PhysicalPhase,
)
    ensures
        physical.slots.dom().contains(peer) ==> physical.holds(
            peer,
            physical.slots[peer].generation,
            physical.slots[peer].phase,
        ) && physical.phase_of(peer) == Some(physical.slots[peer].phase),
        !physical.slots.dom().contains(peer) ==> physical.phase_of(peer) is None
            && !physical.holds(peer, generation, phase) && !physical.being_closed(
            peer,
            generation,
        ),
        generation != physical.slots[peer].generation ==> !physical.holds(peer, generation, phase)
            && !physical.being_closed(peer, generation),
        phase != physical.slots[peer].phase ==> !physical.holds(peer, generation, phase),
        physical.being_closed(peer, generation) <==> physical.holds(
            peer,
            generation,
            PhysicalPhase::Closing,
        ) && !physical.slots[peer].abandoned,
{
}

/// New resources are empty: they have room for `capacity` connections, hold
/// none, and count from nought.
pub proof fn unused_resources_are_empty(capacity: nat, peer: Seq<u8>)
    ensures
        ({
            let unused = Physical::unused(capacity);
            &&& unused.capacity == capacity
            &&& unused.accepting
            &&& unused.next_generation == 0
            &&& !unused.slots.dom().contains(peer)
            &&& !unused.offer_handlers.contains(peer)
            &&& unused.slots.dom().len() == 0
            &&& unused.occupied() == 0
            &&& unused.created_total == 0 && unused.closed_total == 0 && unused.peak == 0
            &&& unused.straggler_waiters == 0 && unused.ice_stop_failures == 0
        }),
        Physical::unused(capacity).refusal(peer) is None <==> capacity > 0,
{
}

/// A generation or a counter goes up by one and begins anew behind its largest
/// value.
pub proof fn counting_begins_anew(n: u64)
    ensures
        n < 0xffff_ffff_ffff_ffff ==> wrapping_next(n) == n + 1,
        n == 0xffff_ffff_ffff_ffff ==> wrapping_next(n) == 0,
{
}

} // verus!
