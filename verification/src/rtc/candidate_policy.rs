//! Which local addresses a peer connection may gather candidates on.

use vstd::prelude::*;
use crate::addr::{IpAddr, ipv4_blocks, ipv6_blocks, link_local_prefixes};
use crate::text::{
    same_text, str_less, text_less, text_less_irreflexive, text_less_total, text_less_transitive,
};
use crate::rtc::config::MAX_WEBRTC_HOST_CANDIDATE_SOCKETS;

verus! {

/// The operational status of an interface.
#[derive(Clone, Copy, Debug, PartialEq, Eq, Structural)]
pub enum IfOperStatus {
    Up,
    Unknown,
    Dormant,
    Testing,
    Down,
    NotPresent,
    LowerLayerDown,
}

/// An address of a local interface.
#[derive(Debug)]
pub struct LocalCandidateAddress {
    pub interface: String,
    pub index: Option<u32>,
    pub ip: IpAddr,
    pub is_p2p: bool,
    pub oper_status: IfOperStatus,
}

/// An address of a local interface as a mathematical value.
pub struct LocalAddress {
    pub interface: Seq<char>,
    pub index: Option<u32>,
    pub ip: IpAddr,
    pub is_p2p: bool,
    pub oper_status: IfOperStatus,
}

impl View for LocalCandidateAddress {
    type V = LocalAddress;

    open spec fn view(&self) -> LocalAddress {
        LocalAddress {
            interface: self.interface@,
            index: self.index,
            ip: self.ip,
            is_p2p: self.is_p2p,
            oper_status: self.oper_status,
        }
    }
}

impl IfOperStatus {
    /// Whether traffic is known to be impossible.
    pub open spec fn spec_is_down(self) -> bool {
        self == IfOperStatus::Down || self == IfOperStatus::NotPresent || self
            == IfOperStatus::LowerLayerDown
    }

    pub fn is_down(self) -> (down: bool)
        ensures
            down == self.spec_is_down(),
    {
        match self {
            IfOperStatus::Down => true,
            IfOperStatus::NotPresent => true,
            IfOperStatus::LowerLayerDown => true,
            _ => false,
        }
    }

    /// How little a status promises: the lower, the better.
    pub open spec fn rank(self) -> u8 {
        match self {
            IfOperStatus::Up => 0,
            IfOperStatus::Unknown => 1,
            IfOperStatus::Dormant => 2,
            IfOperStatus::Testing => 3,
            _ => 4,
        }
    }
}

pub fn oper_status_rank(status: IfOperStatus) -> (rank: u8)
    ensures
        rank == status.rank(),
{
    match status {
        IfOperStatus::Up => 0,
        IfOperStatus::Unknown => 1,
        IfOperStatus::Dormant => 2,
        IfOperStatus::Testing => 3,
        _ => 4,
    }
}

/// Public addresses come before those of private use.
pub open spec fn scope_rank(ip: IpAddr) -> u8 {
    if ip.private_use() {
        1
    } else {
        0
    }
}

pub fn address_scope_rank(ip: IpAddr) -> (rank: u8)
    ensures
        rank == scope_rank(ip),
{
    if ip.is_private_use() {
        1
    } else {
        0
    }
}

impl LocalAddress {
    /// Whether a candidate may be gathered on the address.
    pub open spec fn usable(self) -> bool {
        &&& !self.oper_status.spec_is_down()
        &&& !self.ip.unspecified()
        &&& !self.ip.loopback()
        &&& !self.ip.link_local()
        &&& !self.ip.multicast()
        &&& !self.ip.broadcast()
    }

    /// The interface's index, or the largest there is where it has none.
    pub open spec fn order_index(self) -> u32 {
        match self.index {
            Some(i) => i,
            None => u32::MAX,
        }
    }

    /// Whether an address is preferred to another: by status, then by scope,
    /// then by the interface's index and name, then by the address itself.
    pub open spec fn preferred_to(self, other: LocalAddress) -> bool {
        if self.oper_status.rank() != other.oper_status.rank() {
            self.oper_status.rank() < other.oper_status.rank()
        } else if scope_rank(self.ip) != scope_rank(other.ip) {
            scope_rank(self.ip) < scope_rank(other.ip)
        } else if self.order_index() != other.order_index() {
            self.order_index() < other.order_index()
        } else if self.interface != other.interface {
            text_less(self.interface, other.interface)
        } else {
            self.ip.precedes(other.ip)
        }
    }

    /// Whether two addresses compete for one place: those of one interface and
    /// one IP family do.
    pub open spec fn competes_with(self, other: LocalAddress) -> bool {
        self.interface == other.interface && self.ip.spec_is_ipv4() == other.ip.spec_is_ipv4()
    }
}

pub fn is_usable_candidate(candidate: &LocalCandidateAddress) -> (yes: bool)
    ensures
        yes == candidate@.usable(),
{
    !candidate.oper_status.is_down() && !candidate.ip.is_unspecified()
        && !candidate.ip.is_loopback() && !candidate.ip.is_link_local()
        && !candidate.ip.is_multicast() && !candidate.ip.is_broadcast()
}

/// Whether an address is preferred to another.
pub fn is_preferred(left: &LocalCandidateAddress, right: &LocalCandidateAddress) -> (yes: bool)
    ensures
        yes == left@.preferred_to(right@),
{
    let left_status: u8 = oper_status_rank(left.oper_status);
    let right_status: u8 = oper_status_rank(right.oper_status);
    if left_status != right_status {
        return left_status < right_status;
    }
    let left_scope: u8 = address_scope_rank(left.ip);
    let right_scope: u8 = address_scope_rank(right.ip);
    if left_scope != right_scope {
        return left_scope < right_scope;
    }
    let left_index: u32 = match left.index {
        Some(i) => i,
        None => u32::MAX,
    };
    let right_index: u32 = match right.index {
        Some(i) => i,
        None => u32::MAX,
    };
    if left_index != right_index {
        return left_index < right_index;
    }
    if !same_text(left.interface.as_str(), right.interface.as_str()) {
        return str_less(left.interface.as_str(), right.interface.as_str());
    }
    left.ip.is_before(&right.ip)
}

fn competes(left: &LocalCandidateAddress, right: &LocalCandidateAddress) -> (yes: bool)
    ensures
        yes == left@.competes_with(right@),
{
    same_text(left.interface.as_str(), right.interface.as_str()) && left.ip.is_ipv4()
        == right.ip.is_ipv4()
}

/// The addresses of a list as mathematical values.
pub open spec fn views(addresses: Seq<LocalCandidateAddress>) -> Seq<LocalAddress> {
    addresses.map_values(|a: LocalCandidateAddress| a@)
}

/// Whether the address at `i` gives way to the one at `j`: both are usable and
/// compete, and `j` is preferred, or is as good and comes first.
pub open spec fn gives_way(all: Seq<LocalAddress>, i: int, j: int) -> bool {
    &&& all[j].usable()
    &&& all[j].competes_with(all[i])
    &&& all[j].preferred_to(all[i]) || (j < i && !all[i].preferred_to(all[j]))
}

/// Whether the address at `i` stands for its interface and family.
pub open spec fn represents(all: Seq<LocalAddress>, i: int) -> bool {
    &&& 0 <= i < all.len()
    &&& all[i].usable()
    &&& forall|j: int| 0 <= j < all.len() ==> !#[trigger] gives_way(all, i, j)
}

/// Whether `order` lists the positions of all addresses that stand for their
/// interface and family, the preferred ones first.
pub open spec fn ranks(all: Seq<LocalAddress>, order: Seq<int>) -> bool {
    &&& forall|k: int| 0 <= k < order.len() ==> #[trigger] represents(all, order[k])
    &&& forall|i: int| represents(all, i) ==> order.contains(i)
    &&& forall|a: int, b: int|
        0 <= a < b < order.len() ==> all[#[trigger] order[a]].preferred_to(all[#[trigger] order[b]])
}

/// Whether an address stands for some interface and family.
pub open spec fn offered(all: Seq<LocalAddress>, ip: IpAddr) -> bool {
    exists|p: int| #[trigger] represents(all, p) && all[p].ip == ip
}

/// One round of the selection.
#[derive(Clone, Copy, Debug, PartialEq, Eq, Structural)]
pub enum SelectionRound {
    DirectV4,
    DirectV6,
    PointToPointV4,
    PointToPointV6,
    Any,
}

impl SelectionRound {
    pub open spec fn accepts(self, address: LocalAddress) -> bool {
        match self {
            SelectionRound::DirectV4 => !address.is_p2p && address.ip.spec_is_ipv4(),
            SelectionRound::DirectV6 => !address.is_p2p && !address.ip.spec_is_ipv4(),
            SelectionRound::PointToPointV4 => address.is_p2p && address.ip.spec_is_ipv4(),
            SelectionRound::PointToPointV6 => address.is_p2p && !address.ip.spec_is_ipv4(),
            SelectionRound::Any => true,
        }
    }

    fn matches_candidate(self, candidate: &LocalCandidateAddress) -> (yes: bool)
        ensures
            yes == self.accepts(candidate@),
    {
        match self {
            SelectionRound::DirectV4 => !candidate.is_p2p && candidate.ip.is_ipv4(),
            SelectionRound::DirectV6 => !candidate.is_p2p && !candidate.ip.is_ipv4(),
            SelectionRound::PointToPointV4 => candidate.is_p2p && candidate.ip.is_ipv4(),
            SelectionRound::PointToPointV6 => candidate.is_p2p && !candidate.ip.is_ipv4(),
            SelectionRound::Any => true,
        }
    }
}

/// What is selected after a round over the ranked addresses from `k` on, which
/// takes at most `left` addresses and none twice.
pub open spec fn taken(
    all: Seq<LocalAddress>,
    order: Seq<int>,
    k: int,
    selected: Seq<IpAddr>,
    left: nat,
    round: SelectionRound,
) -> Seq<IpAddr>
    decreases order.len() - k,
{
    if k < 0 || k >= order.len() || selected.len() >= MAX_WEBRTC_HOST_CANDIDATE_SOCKETS || left
        == 0 {
        selected
    } else if round.accepts(all[order[k]]) && !selected.contains(all[order[k]].ip) {
        taken(all, order, k + 1, selected.push(all[order[k]].ip), (left - 1) as nat, round)
    } else {
        taken(all, order, k + 1, selected, left, round)
    }
}

/// The selection from ranked addresses: one direct address of each family, one
/// point-to-point address of each family, then the preferred ones of the rest.
pub open spec fn selection(all: Seq<LocalAddress>, order: Seq<int>) -> Seq<IpAddr> {
    let first = taken(all, order, 0, Seq::empty(), 1, SelectionRound::DirectV4);
    let second = taken(all, order, 0, first, 1, SelectionRound::DirectV6);
    let third = taken(all, order, 0, second, 1, SelectionRound::PointToPointV4);
    let fourth = taken(all, order, 0, third, 1, SelectionRound::PointToPointV6);
    taken(
        all,
        order,
        0,
        fourth,
        (if fourth.len() < MAX_WEBRTC_HOST_CANDIDATE_SOCKETS {
            MAX_WEBRTC_HOST_CANDIDATE_SOCKETS - fourth.len()
        } else {
            0
        }) as nat,
        SelectionRound::Any,
    )
}

// ---------------------------------------------------------------------------
// The order
// ---------------------------------------------------------------------------

proof fn lemma_preferred_transitive(a: LocalAddress, b: LocalAddress, c: LocalAddress)
    requires
        a.preferred_to(b),
        b.preferred_to(c),
    ensures
        a.preferred_to(c),
{
    if a.interface != b.interface && b.interface != c.interface && text_less(
        a.interface,
        b.interface,
    ) && text_less(b.interface, c.interface) {
        text_less_transitive(a.interface, b.interface, c.interface);
        if a.interface == c.interface {
            text_less_irreflexive(a.interface);
        }
    }
}

proof fn lemma_preferred_irreflexive(a: LocalAddress)
    ensures
        !a.preferred_to(a),
{
}

/// Two addresses that stand for different interfaces or families are ordered.
proof fn lemma_preferred_total(a: LocalAddress, b: LocalAddress)
    requires
        !a.competes_with(b),
    ensures
        a.preferred_to(b) || b.preferred_to(a),
{
    if a.interface != b.interface {
        text_less_total(a.interface, b.interface);
    }
}

// ---------------------------------------------------------------------------
// Selecting
// ---------------------------------------------------------------------------

fn is_representative(addresses: &Vec<LocalCandidateAddress>, i: usize) -> (yes: bool)
    requires
        i < addresses@.len(),
    ensures
        yes == represents(views(addresses@), i as int),
{
    let ghost all = views(addresses@);
    if !is_usable_candidate(&addresses[i]) {
        return false;
    }
    let mut j: usize = 0;
    while j < addresses.len()
        invariant
            i < addresses@.len(),
            all == views(addresses@),
            all[i as int].usable(),
            j <= addresses@.len(),
            forall|k: int| 0 <= k < j ==> !#[trigger] gives_way(all, i as int, k),
        decreases addresses@.len() - j,
    {
        let other = &addresses[j];
        let candidate = &addresses[i];
        if is_usable_candidate(other) && competes(other, candidate) && (is_preferred(
            other,
            candidate,
        ) || (j < i && !is_preferred(candidate, other))) {
            assert(gives_way(all, i as int, j as int));
            return false;
        }
        j = j + 1;
    }
    true
}

proof fn lemma_representatives_differ(all: Seq<LocalAddress>, i: int, j: int)
    requires
        represents(all, i),
        represents(all, j),
        i != j,
    ensures
        !all[i].competes_with(all[j]),
{
    if all[i].competes_with(all[j]) {
        assert(!gives_way(all, i, j));
        assert(!gives_way(all, j, i));
    }
}

/// Positions as integers.
spec fn ints(positions: Seq<usize>) -> Seq<int> {
    positions.map_values(|p: usize| p as int)
}

/// Lists the positions of the addresses that stand for their interface and
/// family, the preferred ones first.
fn ranked(addresses: &Vec<LocalCandidateAddress>) -> (order: Vec<usize>)
    ensures
        ranks(views(addresses@), ints(order@)),
{
    let ghost all = views(addresses@);
    let mut order: Vec<usize> = Vec::new();
    let mut i: usize = 0;
    while i < addresses.len()
        invariant
            all == views(addresses@),
            i <= addresses@.len(),
            order@.len() <= i,
            forall|k: int| 0 <= k < order@.len() ==> #[trigger] order@[k] < i,
            forall|k: int|
                0 <= k < order@.len() ==> represents(all, (#[trigger] order@[k]) as int),
            forall|p: int|
                0 <= p < i && #[trigger] represents(all, p) ==> order@.contains(p as usize),
            forall|a: int, b: int|
                0 <= a < b < order@.len() ==> all[#[trigger] order@[a] as int].preferred_to(
                    all[#[trigger] order@[b] as int],
                ),
        decreases addresses@.len() - i,
    {
        if is_representative(addresses, i) {
            let total: usize = order.len();
            let mut at: usize = 0;
            while at < total && is_preferred(&addresses[order[at]], &addresses[i])
                invariant
                    total == order@.len(),
                    at <= total,
                    i < addresses@.len(),
                    all == views(addresses@),
                    forall|k: int| 0 <= k < order@.len() ==> #[trigger] order@[k] < i,
                    forall|k: int|
                        0 <= k < at ==> all[#[trigger] order@[k] as int].preferred_to(
                            all[i as int],
                        ),
                decreases total - at,
            {
                at = at + 1;
            }
            let ghost before = order@;
            proof {
                if at < total {
                    lemma_representatives_differ(all, before[at as int] as int, i as int);
                    lemma_preferred_total(all[before[at as int] as int], all[i as int]);
                    assert forall|k: int| at < k < total implies all[i as int].preferred_to(
                        all[#[trigger] before[k] as int],
                    ) by {
                        lemma_preferred_transitive(
                            all[i as int],
                            all[before[at as int] as int],
                            all[before[k] as int],
                        );
                    }
                }
            }
            order.insert(at, i);
            proof {
                assert(order@ == before.insert(at as int, i));
                assert forall|k: int| 0 <= k < order@.len() implies #[trigger] order@[k] < i + 1
                    && represents(all, order@[k] as int) by {
                    if k < at {
                        assert(order@[k] == before[k]);
                    } else if k > at {
                        assert(order@[k] == before[k - 1]);
                    }
                }
                assert forall|p: int|
                    0 <= p < i + 1 && #[trigger] represents(all, p) implies order@.contains(
                    p as usize,
                ) by {
                    if p == i {
                        assert(order@[at as int] == i);
                    } else {
                        let k = choose|k: int| 0 <= k < before.len() && before[k] == p as usize;
                        if k < at {
                            assert(order@[k] == before[k]);
                        } else {
                            assert(order@[k + 1] == before[k]);
                        }
                    }
                }
                assert forall|a: int, b: int| 0 <= a < b < order@.len() implies all[
                #[trigger] order@[a] as int].preferred_to(all[#[trigger] order@[b] as int]) by {
                    if a < at {
                        assert(order@[a] == before[a]);
                    } else if a > at {
                        assert(order@[a] == before[a - 1]);
                    }
                    if b < at {
                        assert(order@[b] == before[b]);
                    } else if b > at {
                        assert(order@[b] == before[b - 1]);
                    }
                }
            }
        }
        i = i + 1;
    }
    proof {
        assert(views(addresses@).len() == addresses@.len());
        let result = ints(order@);
        assert forall|k: int| 0 <= k < result.len() implies #[trigger] represents(
            all,
            result[k],
        ) by {
            assert(result[k] == order@[k]);
        }
        assert forall|p: int| represents(all, p) implies result.contains(p) by {
            let k = choose|k: int| 0 <= k < order@.len() && order@[k] == p as usize;
            assert(result[k] == p);
        }
        assert forall|a: int, b: int| 0 <= a < b < result.len() implies all[
        #[trigger] result[a]].preferred_to(all[#[trigger] result[b]]) by {
            assert(result[a] == order@[a] && result[b] == order@[b]);
        }
    }
    order
}

fn is_selected(selected: &Vec<IpAddr>, ip: IpAddr) -> (yes: bool)
    ensures
        yes == selected@.contains(ip),
{
    let mut i: usize = 0;
    while i < selected.len()
        invariant
            i <= selected@.len(),
            forall|k: int| 0 <= k < i ==> #[trigger] selected@[k] != ip,
        decreases selected@.len() - i,
    {
        if selected[i] == ip {
            return true;
        }
        i = i + 1;
    }
    false
}

/// Runs one round of the selection.
fn take_matching(
    addresses: &Vec<LocalCandidateAddress>,
    order: &Vec<usize>,
    selected: &mut Vec<IpAddr>,
    limit: usize,
    round: SelectionRound,
)
    requires
        forall|k: int| 0 <= k < order@.len() ==> (#[trigger] order@[k]) < addresses@.len(),
    ensures
        final(selected)@ == taken(
            views(addresses@),
            ints(order@),
            0,
            old(selected)@,
            limit as nat,
            round,
        ),
{
    let ghost all = views(addresses@);
    let ghost positions = ints(order@);
    let mut k: usize = 0;
    let mut left: usize = limit;
    while k < order.len() && selected.len() < MAX_WEBRTC_HOST_CANDIDATE_SOCKETS && left > 0
        invariant
            forall|k: int| 0 <= k < order@.len() ==> (#[trigger] order@[k]) < addresses@.len(),
            all == views(addresses@),
            positions == ints(order@),
            k <= order@.len(),
            taken(all, positions, 0, old(selected)@, limit as nat, round) == taken(
                all,
                positions,
                k as int,
                selected@,
                left as nat,
                round,
            ),
        decreases order@.len() - k,
    {
        let candidate = &addresses[order[k]];
        assert(all[positions[k as int]] == candidate@);
        if round.matches_candidate(candidate) && !is_selected(selected, candidate.ip) {
            selected.push(candidate.ip);
            left = left - 1;
        }
        k = k + 1;
    }
}

/// Selects the local addresses that candidates are gathered on.
pub fn select_candidate_addresses(addresses: &Vec<LocalCandidateAddress>) -> (selected: Vec<IpAddr>)
    ensures
        exists|order: Seq<int>|
            ranks(views(addresses@), order) && selected@ == #[trigger] selection(
                views(addresses@),
                order,
            ),
        selected@.len() <= MAX_WEBRTC_HOST_CANDIDATE_SOCKETS,
        selected@.no_duplicates(),
        // Candidates are gathered on addresses that others can reach.
        forall|s: int|
            0 <= s < selected@.len() ==> match #[trigger] selected@[s] {
                IpAddr::V4(b) => b >> 16 != 0xa9fe && !(0x7f00_0000 <= b <= 0x7fff_ffff) && b != 0
                    && !(0xe000_0000 <= b <= 0xefff_ffff) && b != 0xffff_ffff,
                IpAddr::V6(b) => b >> 118 != 0x3fa && b > 1 && b
                    < 0xff00_0000_0000_0000_0000_0000_0000_0000u128,
            },
        // Each is an address of an interface that is not down.
        forall|s: int|
            0 <= s < selected@.len() ==> exists|i: int|
                0 <= i < addresses@.len() && (#[trigger] addresses@[i]).ip == #[trigger] selected@[s]
                    && !(addresses@[i].oper_status is Down) && !(
                addresses@[i].oper_status is NotPresent) && !(
                addresses@[i].oper_status is LowerLayerDown),
{
    let order = ranked(addresses);
    let ghost all = views(addresses@);
    let ghost positions = ints(order@);
    assert forall|k: int| 0 <= k < order@.len() implies (#[trigger] order@[k])
        < addresses@.len() by {
        assert(represents(all, positions[k]));
        assert(positions[k] == order@[k]);
    }
    let mut selected: Vec<IpAddr> = Vec::new();
    take_matching(addresses, &order, &mut selected, 1, SelectionRound::DirectV4);
    take_matching(addresses, &order, &mut selected, 1, SelectionRound::DirectV6);
    take_matching(addresses, &order, &mut selected, 1, SelectionRound::PointToPointV4);
    take_matching(addresses, &order, &mut selected, 1, SelectionRound::PointToPointV6);
    let remaining: usize = if selected.len() < MAX_WEBRTC_HOST_CANDIDATE_SOCKETS {
        MAX_WEBRTC_HOST_CANDIDATE_SOCKETS - selected.len()
    } else {
        0
    };
    take_matching(addresses, &order, &mut selected, remaining, SelectionRound::Any);
    proof {
        assert(selected@ == selection(all, positions));
        selection_is_sound(all, positions);
        assert forall|s: int| 0 <= s < selected@.len() implies reachable(#[trigger] selected@[s])
            && exists|i: int|
            0 <= i < addresses@.len() && (#[trigger] addresses@[i]).ip == selected@[s]
                && !addresses@[i].oper_status.spec_is_down() by {
            let p = choose|p: int| #[trigger] represents(all, p) && all[p].ip == selected@[s];
            assert(offered(all, selected@[s]));
            usable_addresses_are_reachable(all[p]);
            assert(addresses@[p].ip == selected@[s]);
        }
    }
    selected
}

// ---------------------------------------------------------------------------
// Laws
// ---------------------------------------------------------------------------

proof fn lemma_taken(
    all: Seq<LocalAddress>,
    order: Seq<int>,
    k: int,
    selected: Seq<IpAddr>,
    left: nat,
    round: SelectionRound,
)
    requires
        ranks(all, order),
        0 <= k <= order.len(),
        selected.no_duplicates(),
        selected.len() <= MAX_WEBRTC_HOST_CANDIDATE_SOCKETS,
        forall|s: int| 0 <= s < selected.len() ==> offered(all, #[trigger] selected[s]),
    ensures
        ({
            let result = taken(all, order, k, selected, left, round);
            &&& result.no_duplicates()
            &&& selected.len() <= result.len() <= MAX_WEBRTC_HOST_CANDIDATE_SOCKETS
            &&& result.len() <= selected.len() + left
            &&& forall|s: int| 0 <= s < result.len() ==> offered(all, #[trigger] result[s])
            &&& forall|s: int| 0 <= s < selected.len() ==> #[trigger] result[s] == selected[s]
        }),
    decreases order.len() - k,
{
    if k < order.len() && selected.len() < MAX_WEBRTC_HOST_CANDIDATE_SOCKETS && left > 0 {
        if round.accepts(all[order[k]]) && !selected.contains(all[order[k]].ip) {
            let more = selected.push(all[order[k]].ip);
            assert(represents(all, order[k]));
            assert(offered(all, all[order[k]].ip));
            assert forall|s: int| 0 <= s < more.len() implies offered(
                all,
                #[trigger] more[s],
            ) by {
                if s < selected.len() {
                    assert(more[s] == selected[s]);
                }
            }
            lemma_taken(all, order, k + 1, more, (left - 1) as nat, round);
            let result = taken(all, order, k + 1, more, (left - 1) as nat, round);
            assert forall|s: int| 0 <= s < selected.len() implies #[trigger] result[s]
                == selected[s] by {
                assert(result[s] == more[s]);
            }
        } else {
            lemma_taken(all, order, k + 1, selected, left, round);
        }
    }
}

/// Whether an address is one that others can reach: not `169.254.0.0/16`,
/// `127.0.0.0/8`, `0.0.0.0`, `224.0.0.0/4` or `255.255.255.255`, nor `fe80::/10`,
/// `::`, `::1` or `ff00::/8`.
pub open spec fn reachable(ip: IpAddr) -> bool {
    match ip {
        IpAddr::V4(b) => b >> 16 != 0xa9fe && !(0x7f00_0000 <= b <= 0x7fff_ffff) && b != 0 && !(
        0xe000_0000 <= b <= 0xefff_ffff) && b != 0xffff_ffff,
        IpAddr::V6(b) => b >> 118 != 0x3fa && b > 1 && b
            < 0xff00_0000_0000_0000_0000_0000_0000_0000u128,
    }
}

/// An address can be used exactly where others can reach it and its interface is
/// not known to be down.
pub proof fn usable_addresses_are_reachable(address: LocalAddress)
    ensures
        address.usable() <==> reachable(address.ip) && !address.oper_status.spec_is_down(),
{
    match address.ip {
        IpAddr::V4(b) => {
            ipv4_blocks(b);
            link_local_prefixes(b, 0);
        },
        IpAddr::V6(b) => {
            ipv6_blocks(b);
            link_local_prefixes(0, b);
        },
    }
}

/// A selection holds no address twice and no more addresses than there may be
/// sockets, and each is a usable address of some interface.
pub proof fn selection_is_sound(all: Seq<LocalAddress>, order: Seq<int>)
    requires
        ranks(all, order),
    ensures
        selection(all, order).no_duplicates(),
        selection(all, order).len() <= MAX_WEBRTC_HOST_CANDIDATE_SOCKETS,
        forall|s: int|
            0 <= s < selection(all, order).len() ==> offered(
                all,
                #[trigger] selection(all, order)[s],
            ),
{
    let first = taken(all, order, 0, Seq::empty(), 1, SelectionRound::DirectV4);
    let second = taken(all, order, 0, first, 1, SelectionRound::DirectV6);
    let third = taken(all, order, 0, second, 1, SelectionRound::PointToPointV4);
    let fourth = taken(all, order, 0, third, 1, SelectionRound::PointToPointV6);
    lemma_taken(all, order, 0, Seq::empty(), 1, SelectionRound::DirectV4);
    lemma_taken(all, order, 0, first, 1, SelectionRound::DirectV6);
    lemma_taken(all, order, 0, second, 1, SelectionRound::PointToPointV4);
    lemma_taken(all, order, 0, third, 1, SelectionRound::PointToPointV6);
    lemma_taken(
        all,
        order,
        0,
        fourth,
        (MAX_WEBRTC_HOST_CANDIDATE_SOCKETS - fourth.len()) as nat,
        SelectionRound::Any,
    );
}

proof fn lemma_round_finds(
    all: Seq<LocalAddress>,
    order: Seq<int>,
    k: int,
    at: int,
    selected: Seq<IpAddr>,
    round: SelectionRound,
)
    requires
        0 <= k <= at < order.len(),
        round.accepts(all[order[at]]),
        selected.len() < MAX_WEBRTC_HOST_CANDIDATE_SOCKETS,
    ensures
        ({
            let result = taken(all, order, k, selected, 1, round);
            ||| selected.contains(all[order[at]].ip)
            ||| {
                &&& result.len() == selected.len() + 1
                &&& exists|p: int|
                    0 <= p < order.len() && round.accepts(all[#[trigger] order[p]])
                        && all[order[p]].ip == result.last()
            }
        }),
    decreases order.len() - k,
{
    if round.accepts(all[order[k]]) && !selected.contains(all[order[k]].ip) {
        let more = selected.push(all[order[k]].ip);
        assert(taken(all, order, k + 1, more, 0, round) == more);
    } else if k < at {
        lemma_round_finds(all, order, k + 1, at, selected, round);
    }
}

proof fn lemma_round_finds_class(
    all: Seq<LocalAddress>,
    order: Seq<int>,
    at: int,
    selected: Seq<IpAddr>,
    round: SelectionRound,
)
    requires
        ranks(all, order),
        0 <= at < order.len(),
        round.accepts(all[order[at]]),
        selected.len() < MAX_WEBRTC_HOST_CANDIDATE_SOCKETS,
        selected.no_duplicates(),
        forall|s: int| 0 <= s < selected.len() ==> offered(all, #[trigger] selected[s]),
    ensures
        class_selected(all, taken(all, order, 0, selected, 1, round), round),
{
    let result = taken(all, order, 0, selected, 1, round);
    lemma_round_finds(all, order, 0, at, selected, round);
    lemma_taken(all, order, 0, selected, 1, round);
    if selected.contains(all[order[at]].ip) {
        let s = choose|s: int| 0 <= s < selected.len() && selected[s] == all[order[at]].ip;
        assert(result[s] == selected[s]);
        assert(represents(all, order[at]));
    } else {
        let p = choose|p: int|
            0 <= p < order.len() && round.accepts(all[#[trigger] order[p]]) && all[order[p]].ip
                == result.last();
        assert(represents(all, order[p]));
        assert(result[result.len() - 1] == all[order[p]].ip);
    }
}

proof fn lemma_class_stays(
    all: Seq<LocalAddress>,
    before: Seq<IpAddr>,
    after: Seq<IpAddr>,
    round: SelectionRound,
)
    requires
        class_selected(all, before, round),
        before.len() <= after.len(),
        forall|s: int| 0 <= s < before.len() ==> #[trigger] after[s] == before[s],
    ensures
        class_selected(all, after, round),
{
    let p = choose|p: int| #[trigger]
        represents(all, p) && round.accepts(all[p]) && before.contains(all[p].ip);
    let s = choose|s: int| 0 <= s < before.len() && before[s] == all[p].ip;
    assert(after[s] == all[p].ip);
}

/// Whether an address that a round accepts was selected.
pub open spec fn class_selected(
    all: Seq<LocalAddress>,
    selected: Seq<IpAddr>,
    round: SelectionRound,
) -> bool {
    exists|p: int| #[trigger]
        represents(all, p) && round.accepts(all[p]) && selected.contains(all[p].ip)
}

/// Each class of addresses that is there is among the selected ones: direct and
/// point-to-point links, of each IP family.
pub proof fn each_class_is_selected(
    all: Seq<LocalAddress>,
    order: Seq<int>,
    i: int,
    round: SelectionRound,
)
    requires
        ranks(all, order),
        represents(all, i),
        round.accepts(all[i]),
    ensures
        class_selected(all, selection(all, order), round),
{
    assert(order.contains(i));
    let at = choose|k: int| 0 <= k < order.len() && order[k] == i;
    let first = taken(all, order, 0, Seq::empty(), 1, SelectionRound::DirectV4);
    let second = taken(all, order, 0, first, 1, SelectionRound::DirectV6);
    let third = taken(all, order, 0, second, 1, SelectionRound::PointToPointV4);
    let fourth = taken(all, order, 0, third, 1, SelectionRound::PointToPointV6);
    let last = selection(all, order);
    lemma_taken(all, order, 0, Seq::empty(), 1, SelectionRound::DirectV4);
    lemma_taken(all, order, 0, first, 1, SelectionRound::DirectV6);
    lemma_taken(all, order, 0, second, 1, SelectionRound::PointToPointV4);
    lemma_taken(all, order, 0, third, 1, SelectionRound::PointToPointV6);
    lemma_taken(
        all,
        order,
        0,
        fourth,
        (MAX_WEBRTC_HOST_CANDIDATE_SOCKETS - fourth.len()) as nat,
        SelectionRound::Any,
    );
    let class = if all[i].is_p2p {
        if all[i].ip.spec_is_ipv4() {
            SelectionRound::PointToPointV4
        } else {
            SelectionRound::PointToPointV6
        }
    } else if all[i].ip.spec_is_ipv4() {
        SelectionRound::DirectV4
    } else {
        SelectionRound::DirectV6
    };
    match class {
        SelectionRound::DirectV4 => {
            lemma_round_finds_class(all, order, at, Seq::empty(), class);
            lemma_class_stays(all, first, second, class);
            lemma_class_stays(all, second, third, class);
            lemma_class_stays(all, third, fourth, class);
        },
        SelectionRound::DirectV6 => {
            lemma_round_finds_class(all, order, at, first, class);
            lemma_class_stays(all, second, third, class);
            lemma_class_stays(all, third, fourth, class);
        },
        SelectionRound::PointToPointV4 => {
            lemma_round_finds_class(all, order, at, second, class);
            lemma_class_stays(all, third, fourth, class);
        },
        _ => {
            lemma_round_finds_class(all, order, at, third, class);
        },
    }
    lemma_class_stays(all, fourth, last, class);
    let p = choose|p: int| #[trigger]
        represents(all, p) && class.accepts(all[p]) && last.contains(all[p].ip);
    assert(round.accepts(all[p]));
}

proof fn lemma_last_round(
    all: Seq<LocalAddress>,
    order: Seq<int>,
    k: int,
    m: int,
    selected: Seq<IpAddr>,
    left: nat,
)
    requires
        ranks(all, order),
        0 <= k <= m < order.len(),
        selected.len() + left == MAX_WEBRTC_HOST_CANDIDATE_SOCKETS,
        selected.no_duplicates(),
        forall|s: int| 0 <= s < selected.len() ==> offered(all, #[trigger] selected[s]),
    ensures
        ({
            let result = taken(all, order, k, selected, left, SelectionRound::Any);
            result.len() == MAX_WEBRTC_HOST_CANDIDATE_SOCKETS || result.contains(all[order[m]].ip)
        }),
    decreases order.len() - k,
{
    let ip = all[order[k]].ip;
    let result = taken(all, order, k, selected, left, SelectionRound::Any);
    lemma_taken(all, order, k, selected, left, SelectionRound::Any);
    if left > 0 {
        if selected.contains(ip) {
            if k == m {
                let s = choose|s: int| 0 <= s < selected.len() && selected[s] == ip;
                assert(result[s] == ip);
            } else {
                lemma_last_round(all, order, k + 1, m, selected, left);
            }
        } else {
            let more = selected.push(ip);
            assert(represents(all, order[k]));
            assert(offered(all, ip));
            assert forall|s: int| 0 <= s < more.len() implies offered(
                all,
                #[trigger] more[s],
            ) by {
                if s < selected.len() {
                    assert(more[s] == selected[s]);
                }
            }
            if k == m {
                lemma_taken(all, order, k + 1, more, (left - 1) as nat, SelectionRound::Any);
                assert(result[selected.len() as int] == more[selected.len() as int]);
            } else {
                lemma_last_round(all, order, k + 1, m, more, (left - 1) as nat);
            }
        }
    }
}

/// The distinct addresses that stand for some interface and family.
pub open spec fn distinct_offered(all: Seq<LocalAddress>, order: Seq<int>) -> Set<IpAddr> {
    order.map_values(|i: int| all[i].ip).to_set()
}

/// As many addresses are selected as there may be sockets, or all distinct ones
/// where there are fewer.
pub proof fn selection_is_full(all: Seq<LocalAddress>, order: Seq<int>)
    requires
        ranks(all, order),
    ensures
        selection(all, order).len() == if distinct_offered(all, order).len()
            < MAX_WEBRTC_HOST_CANDIDATE_SOCKETS {
            distinct_offered(all, order).len()
        } else {
            MAX_WEBRTC_HOST_CANDIDATE_SOCKETS as nat
        },
        forall|ip: IpAddr| #[trigger]
            distinct_offered(all, order).contains(ip) <==> offered(all, ip),
{
    let selected = selection(all, order);
    let ips = order.map_values(|i: int| all[i].ip);
    let distinct = distinct_offered(all, order);
    selection_is_sound(all, order);
    assert forall|ip: IpAddr| #[trigger] distinct.contains(ip) <==> offered(all, ip) by {
        if distinct.contains(ip) {
            let k = choose|k: int| 0 <= k < ips.len() && ips[k] == ip;
            assert(represents(all, order[k]));
        }
        if offered(all, ip) {
            let p = choose|p: int| #[trigger] represents(all, p) && all[p].ip == ip;
            assert(order.contains(p));
            let k = choose|k: int| 0 <= k < order.len() && order[k] == p;
            assert(ips[k] == ip);
        }
    }
    vstd::seq_lib::seq_to_set_is_finite(ips);
    selected.unique_seq_to_set();
    assert(selected.to_set().subset_of(distinct)) by {
        assert forall|ip: IpAddr| selected.to_set().contains(ip) implies distinct.contains(ip) by {
            let s = choose|s: int| 0 <= s < selected.len() && selected[s] == ip;
            assert(offered(all, selected[s]));
        }
    }
    vstd::set_lib::lemma_len_subset(selected.to_set(), distinct);
    if selected.len() < MAX_WEBRTC_HOST_CANDIDATE_SOCKETS {
        assert forall|m: int| 0 <= m < order.len() implies selected.contains(
            all[#[trigger] order[m]].ip,
        ) by {
            lemma_unfilled_selects(all, order, m);
        }
        assert(selected.to_set() =~= distinct) by {
            assert forall|ip: IpAddr| distinct.contains(ip) implies selected.to_set().contains(
                ip,
            ) by {
                let k = choose|k: int| 0 <= k < ips.len() && ips[k] == ip;
                assert(selected.contains(all[order[k]].ip));
            }
        }
    }
}

proof fn lemma_unfilled_selects(all: Seq<LocalAddress>, order: Seq<int>, m: int)
    requires
        ranks(all, order),
        0 <= m < order.len(),
        selection(all, order).len() < MAX_WEBRTC_HOST_CANDIDATE_SOCKETS,
    ensures
        selection(all, order).contains(all[order[m]].ip),
{
    let first = taken(all, order, 0, Seq::empty(), 1, SelectionRound::DirectV4);
    let second = taken(all, order, 0, first, 1, SelectionRound::DirectV6);
    let third = taken(all, order, 0, second, 1, SelectionRound::PointToPointV4);
    let fourth = taken(all, order, 0, third, 1, SelectionRound::PointToPointV6);
    lemma_taken(all, order, 0, Seq::empty(), 1, SelectionRound::DirectV4);
    lemma_taken(all, order, 0, first, 1, SelectionRound::DirectV6);
    lemma_taken(all, order, 0, second, 1, SelectionRound::PointToPointV4);
    lemma_taken(all, order, 0, third, 1, SelectionRound::PointToPointV6);
    lemma_last_round(
        all,
        order,
        0,
        m,
        fourth,
        (MAX_WEBRTC_HOST_CANDIDATE_SOCKETS - fourth.len()) as nat,
    );
}

/// An interface is known to be down by its status alone.
pub proof fn statuses_that_are_down(status: IfOperStatus)
    ensures
        status.spec_is_down() <==> status is Down || status is NotPresent || status
            is LowerLayerDown,
{
}

/// What decides between two addresses: first the interface's status, then whether
/// the address is public, then the interface's index, where one is known, then its
/// name, and at last the address itself.
pub proof fn addresses_are_preferred_by_their_interface(a: LocalAddress, b: LocalAddress)
    ensures
        a.oper_status is Up && (b.oper_status is Unknown || b.oper_status is Dormant
            || b.oper_status is Testing) ==> a.preferred_to(b) && !b.preferred_to(a),
        a.oper_status is Unknown && (b.oper_status is Dormant || b.oper_status is Testing)
            ==> a.preferred_to(b) && !b.preferred_to(a),
        a.oper_status is Dormant && b.oper_status is Testing ==> a.preferred_to(b)
            && !b.preferred_to(a),
        !a.oper_status.spec_is_down() && b.oper_status.spec_is_down() ==> a.preferred_to(b)
            && !b.preferred_to(a),
        a.oper_status == b.oper_status ==> {
            &&& !a.ip.private_use() && b.ip.private_use() ==> a.preferred_to(b) && !b.preferred_to(a)
            &&& a.ip.private_use() == b.ip.private_use() ==> {
                &&& a.index matches Some(x) ==> (b.index matches Some(y) ==> x < y
                    ==> a.preferred_to(b) && !b.preferred_to(a))
                &&& a.index matches Some(x) ==> (x < u32::MAX && b.index is None ==> a.preferred_to(
                    b,
                ) && !b.preferred_to(a))
                &&& a.index == b.index && a.interface != b.interface ==> (a.preferred_to(b)
                    <==> text_less(a.interface, b.interface))
                &&& a.index == b.index && a.interface == b.interface ==> (a.preferred_to(b)
                    <==> a.ip.precedes(b.ip))
            }
        },
{
}

/// Addresses compete for one place exactly where they share interface and family.
pub proof fn competition_is_within_an_interface_and_family(a: LocalAddress, b: LocalAddress)
    ensures
        a.competes_with(b) <==> a.interface == b.interface && (a.ip is V4 <==> b.ip is V4),
{
}

/// The classes from which one address each is selected: direct and point-to-point
/// links, of each family.
pub proof fn classes_are_links_and_families(a: LocalAddress)
    ensures
        SelectionRound::DirectV4.accepts(a) <==> !a.is_p2p && a.ip is V4,
        SelectionRound::DirectV6.accepts(a) <==> !a.is_p2p && a.ip is V6,
        SelectionRound::PointToPointV4.accepts(a) <==> a.is_p2p && a.ip is V4,
        SelectionRound::PointToPointV6.accepts(a) <==> a.is_p2p && a.ip is V6,
        SelectionRound::Any.accepts(a),
{
}

proof fn lemma_best_below(all: Seq<LocalAddress>, j: int, n: int) -> (best: int)
    requires
        0 <= j < n <= all.len(),
        all[j].usable(),
    ensures
        0 <= best < n,
        all[best].usable(),
        all[best].competes_with(all[j]),
        forall|k: int| 0 <= k < n ==> !#[trigger] gives_way(all, best, k),
    decreases n,
{
    if j == n - 1 && !(exists|k: int|
        0 <= k < n - 1 && (#[trigger] all[k]).usable() && all[k].competes_with(all[j])) {
        assert forall|k: int| 0 <= k < n implies !#[trigger] gives_way(all, j, k) by {
            if k == j {
                lemma_preferred_irreflexive(all[j]);
            } else if all[k].usable() && all[k].competes_with(all[j]) {
                assert(false);
            }
        }
        j
    } else {
        let first = if j < n - 1 {
            j
        } else {
            choose|k: int|
                0 <= k < n - 1 && (#[trigger] all[k]).usable() && all[k].competes_with(all[j])
        };
        let best = lemma_best_below(all, first, n - 1);
        let last = n - 1;
        if gives_way(all, best, last) {
            assert forall|k: int| 0 <= k < n implies !#[trigger] gives_way(all, last, k) by {
                if k == last {
                    lemma_preferred_irreflexive(all[last]);
                } else if gives_way(all, last, k) {
                    assert(!gives_way(all, best, k));
                    assert(all[last].preferred_to(all[best]));
                    if all[k].preferred_to(all[last]) {
                        lemma_preferred_transitive(all[k], all[last], all[best]);
                    } else {
                        assert(!all[last].preferred_to(all[k]));
                        if !all[k].preferred_to(all[best]) {
                            lemma_preferred_total(all[k], all[last]);
                        }
                    }
                }
            }
            last
        } else {
            best
        }
    }
}

/// Every interface and family with a usable address is represented, by an address
/// to which none of its own is preferred.
pub proof fn every_interface_and_family_is_represented(all: Seq<LocalAddress>, j: int)
    requires
        0 <= j < all.len(),
        all[j].usable(),
    ensures
        exists|i: int| #[trigger]
            represents(all, i) && all[i].competes_with(all[j]) && !all[j].preferred_to(all[i]),
{
    let best = lemma_best_below(all, j, all.len() as int);
    assert(represents(all, best));
    assert(!gives_way(all, best, j));
}

proof fn lemma_round_takes_best(
    all: Seq<LocalAddress>,
    order: Seq<int>,
    k: int,
    at: int,
    selected: Seq<IpAddr>,
    round: SelectionRound,
)
    requires
        0 <= k <= at < order.len(),
        round.accepts(all[order[at]]),
        forall|m: int| k <= m < at ==> !round.accepts(all[#[trigger] order[m]]),
        selected.len() < MAX_WEBRTC_HOST_CANDIDATE_SOCKETS,
    ensures
        taken(all, order, k, selected, 1, round).contains(all[order[at]].ip) || selected.contains(
            all[order[at]].ip,
        ),
    decreases order.len() - k,
{
    if k == at {
        let ip = all[order[at]].ip;
        if !selected.contains(ip) {
            let more = selected.push(ip);
            assert(taken(all, order, k + 1, more, 0, round) == more);
            assert(more[selected.len() as int] == ip);
        }
    } else {
        assert(!round.accepts(all[order[k]]));
        lemma_round_takes_best(all, order, k + 1, at, selected, round);
    }
}

/// Whether an address is the preferred one of a class.
pub open spec fn best_of_class(all: Seq<LocalAddress>, i: int, round: SelectionRound) -> bool {
    &&& represents(all, i)
    &&& round.accepts(all[i])
    &&& forall|j: int| #[trigger]
        represents(all, j) && round.accepts(all[j]) ==> !all[j].preferred_to(all[i])
}

/// The preferred address of each class is among the selected ones.
pub proof fn best_of_each_class_is_selected(
    all: Seq<LocalAddress>,
    order: Seq<int>,
    i: int,
    round: SelectionRound,
)
    requires
        ranks(all, order),
        best_of_class(all, i, round),
        !(round is Any),
    ensures
        selection(all, order).contains(all[i].ip),
{
    assert(order.contains(i));
    let at = choose|k: int| 0 <= k < order.len() && order[k] == i;
    assert forall|m: int| 0 <= m < at implies !round.accepts(all[#[trigger] order[m]]) by {
        assert(represents(all, order[m]));
        assert(all[order[m]].preferred_to(all[order[at]]));
    }
    let first = taken(all, order, 0, Seq::empty(), 1, SelectionRound::DirectV4);
    let second = taken(all, order, 0, first, 1, SelectionRound::DirectV6);
    let third = taken(all, order, 0, second, 1, SelectionRound::PointToPointV4);
    let fourth = taken(all, order, 0, third, 1, SelectionRound::PointToPointV6);
    let last = selection(all, order);
    lemma_taken(all, order, 0, Seq::empty(), 1, SelectionRound::DirectV4);
    lemma_taken(all, order, 0, first, 1, SelectionRound::DirectV6);
    lemma_taken(all, order, 0, second, 1, SelectionRound::PointToPointV4);
    lemma_taken(all, order, 0, third, 1, SelectionRound::PointToPointV6);
    lemma_taken(
        all,
        order,
        0,
        fourth,
        (MAX_WEBRTC_HOST_CANDIDATE_SOCKETS - fourth.len()) as nat,
        SelectionRound::Any,
    );
    let ip = all[i].ip;
    let before = match round {
        SelectionRound::DirectV4 => Seq::empty(),
        SelectionRound::DirectV6 => first,
        SelectionRound::PointToPointV4 => second,
        _ => third,
    };
    let after = match round {
        SelectionRound::DirectV4 => first,
        SelectionRound::DirectV6 => second,
        SelectionRound::PointToPointV4 => third,
        _ => fourth,
    };
    lemma_round_takes_best(all, order, 0, at, before, round);
    if before.contains(ip) {
        let s = choose|s: int| 0 <= s < before.len() && before[s] == ip;
        assert(after[s] == ip);
    }
    assert(after.contains(ip));
    let s = choose|s: int| 0 <= s < after.len() && after[s] == ip;
    assert(first.len() <= second.len() <= third.len() <= fourth.len() <= last.len());
    assert(fourth[s] == ip) by {
        if round is DirectV4 {
            assert(second[s] == first[s] && third[s] == second[s]);
        } else if round is DirectV6 {
            assert(third[s] == second[s]);
        }
    }
    assert(last[s] == fourth[s]);
}

proof fn lemma_fill_follows_order(
    all: Seq<LocalAddress>,
    order: Seq<int>,
    k: int,
    a: int,
    selected: Seq<IpAddr>,
    left: nat,
    ip: IpAddr,
)
    requires
        0 <= k <= a < order.len(),
        !taken(all, order, k, selected, left, SelectionRound::Any).contains(all[order[a]].ip),
        taken(all, order, k, selected, left, SelectionRound::Any).contains(ip),
    ensures
        selected.contains(ip) || exists|c: int|
            k <= c < a && all[#[trigger] order[c]].ip == ip,
    decreases order.len() - k,
{
    let result = taken(all, order, k, selected, left, SelectionRound::Any);
    if selected.len() >= MAX_WEBRTC_HOST_CANDIDATE_SOCKETS || left == 0 {
    } else {
        let here = all[order[k]].ip;
        if selected.contains(here) {
            if k < a {
                lemma_fill_follows_order(all, order, k + 1, a, selected, left, ip);
            } else {
                lemma_taken_keeps(all, order, k, selected, left, SelectionRound::Any, here);
            }
        } else {
            let more = selected.push(here);
            assert(more[selected.len() as int] == here);
            lemma_taken_keeps(
                all,
                order,
                k + 1,
                more,
                (left - 1) as nat,
                SelectionRound::Any,
                here,
            );
            if k < a {
                lemma_fill_follows_order(all, order, k + 1, a, more, (left - 1) as nat, ip);
                if more.contains(ip) && !selected.contains(ip) {
                    let s = choose|s: int| 0 <= s < more.len() && more[s] == ip;
                    if s < selected.len() {
                        assert(selected[s] == ip);
                    }
                    assert(all[order[k]].ip == ip);
                }
            }
        }
    }
}

proof fn lemma_taken_keeps(
    all: Seq<LocalAddress>,
    order: Seq<int>,
    k: int,
    selected: Seq<IpAddr>,
    left: nat,
    round: SelectionRound,
    ip: IpAddr,
)
    requires
        selected.contains(ip),
    ensures
        taken(all, order, k, selected, left, round).contains(ip),
    decreases order.len() - k,
{
    if k < 0 || k >= order.len() || selected.len() >= MAX_WEBRTC_HOST_CANDIDATE_SOCKETS || left
        == 0 {
    } else if round.accepts(all[order[k]]) && !selected.contains(all[order[k]].ip) {
        let more = selected.push(all[order[k]].ip);
        let s = choose|s: int| 0 <= s < selected.len() && selected[s] == ip;
        assert(more[s] == ip);
        lemma_taken_keeps(all, order, k + 1, more, (left - 1) as nat, round, ip);
    } else {
        lemma_taken_keeps(all, order, k + 1, selected, left, round, ip);
    }
}

/// Beyond the first four, addresses are selected by preference: where one is left
/// out, every selected one is among the first four, or is the address of something
/// that is preferred to it.
pub proof fn spare_places_go_by_preference(
    all: Seq<LocalAddress>,
    order: Seq<int>,
    left_out: int,
    ip: IpAddr,
)
    requires
        ranks(all, order),
        represents(all, left_out),
        !selection(all, order).contains(all[left_out].ip),
        selection(all, order).contains(ip),
    ensures
        (exists|s: int| 0 <= s < 4 && s < selection(all, order).len() && #[trigger] selection(
            all,
            order,
        )[s] == ip) || exists|c: int| #[trigger]
            represents(all, c) && all[c].ip == ip && all[c].preferred_to(all[left_out]),
{
    assert(order.contains(left_out));
    let a = choose|k: int| 0 <= k < order.len() && order[k] == left_out;
    let first = taken(all, order, 0, Seq::empty(), 1, SelectionRound::DirectV4);
    let second = taken(all, order, 0, first, 1, SelectionRound::DirectV6);
    let third = taken(all, order, 0, second, 1, SelectionRound::PointToPointV4);
    let fourth = taken(all, order, 0, third, 1, SelectionRound::PointToPointV6);
    let last = selection(all, order);
    lemma_taken(all, order, 0, Seq::empty(), 1, SelectionRound::DirectV4);
    lemma_taken(all, order, 0, first, 1, SelectionRound::DirectV6);
    lemma_taken(all, order, 0, second, 1, SelectionRound::PointToPointV4);
    lemma_taken(all, order, 0, third, 1, SelectionRound::PointToPointV6);
    let left = (MAX_WEBRTC_HOST_CANDIDATE_SOCKETS - fourth.len()) as nat;
    lemma_taken(all, order, 0, fourth, left, SelectionRound::Any);
    lemma_fill_follows_order(all, order, 0, a, fourth, left, ip);
    if fourth.contains(ip) {
        let s = choose|s: int| 0 <= s < fourth.len() && fourth[s] == ip;
        assert(last[s] == fourth[s]);
    } else {
        let c = choose|c: int| 0 <= c < a && all[#[trigger] order[c]].ip == ip;
        assert(represents(all, order[c]));
        assert(all[order[c]].preferred_to(all[order[a]]));
    }
}

/// Wherever an interface without a point-to-point link has a usable IPv4
/// address, the first selected address is one.
pub proof fn direct_ipv4_comes_first(all: Seq<LocalAddress>, order: Seq<int>, i: int)
    requires
        ranks(all, order),
        represents(all, i),
        !all[i].is_p2p,
        all[i].ip.spec_is_ipv4(),
    ensures
        selection(all, order).len() > 0,
        selection(all, order)[0].spec_is_ipv4(),
{
    let at = choose|k: int| 0 <= k < order.len() && order[k] == i;
    assert(order.contains(i));
    lemma_round_finds(all, order, 0, at, Seq::empty(), SelectionRound::DirectV4);
    let first = taken(all, order, 0, Seq::empty(), 1, SelectionRound::DirectV4);
    let second = taken(all, order, 0, first, 1, SelectionRound::DirectV6);
    let third = taken(all, order, 0, second, 1, SelectionRound::PointToPointV4);
    let fourth = taken(all, order, 0, third, 1, SelectionRound::PointToPointV6);
    lemma_taken(all, order, 0, Seq::empty(), 1, SelectionRound::DirectV4);
    lemma_taken(all, order, 0, first, 1, SelectionRound::DirectV6);
    lemma_taken(all, order, 0, second, 1, SelectionRound::PointToPointV4);
    lemma_taken(all, order, 0, third, 1, SelectionRound::PointToPointV6);
    lemma_taken(
        all,
        order,
        0,
        fourth,
        (MAX_WEBRTC_HOST_CANDIDATE_SOCKETS - fourth.len()) as nat,
        SelectionRound::Any,
    );
    assert(first[0] == first.last());
    assert(second[0] == first[0] && third[0] == second[0] && fourth[0] == third[0]);
    assert(selection(all, order)[0] == fourth[0]);
}

proof fn lemma_ranking_step(all: Seq<LocalAddress>, a: Seq<int>, b: Seq<int>, k: int)
    requires
        ranks(all, a),
        ranks(all, b),
        0 <= k < a.len(),
        k <= b.len(),
        forall|i: int| 0 <= i < k ==> #[trigger] a[i] == b[i],
    ensures
        k < b.len(),
        a[k] == b[k],
{
    assert(represents(all, a[k]));
    let m = choose|m: int| 0 <= m < b.len() && b[m] == a[k];
    assert(b.contains(a[k]));
    if m < k {
        assert(a[m] == b[m]);
        lemma_preferred_irreflexive(all[a[k]]);
    }
    if m > k {
        assert(represents(all, b[k]));
        assert(a.contains(b[k]));
        let n = choose|n: int| 0 <= n < a.len() && a[n] == b[k];
        assert(all[b[k]].preferred_to(all[b[m]]));
        if n < k {
            assert(a[n] == b[n]);
            assert(all[b[n]].preferred_to(all[b[k]]));
            lemma_preferred_irreflexive(all[b[k]]);
        } else if n > k {
            assert(all[a[k]].preferred_to(all[a[n]]));
            lemma_preferred_transitive(all[a[k]], all[a[n]], all[a[k]]);
            lemma_preferred_irreflexive(all[a[k]]);
        }
    }
}

proof fn lemma_rankings_agree(all: Seq<LocalAddress>, a: Seq<int>, b: Seq<int>, k: int)
    requires
        ranks(all, a),
        ranks(all, b),
        0 <= k <= a.len(),
    ensures
        k <= b.len(),
        forall|i: int| 0 <= i < k ==> #[trigger] a[i] == b[i],
    decreases k,
{
    if k > 0 {
        lemma_rankings_agree(all, a, b, k - 1);
        lemma_ranking_step(all, a, b, k - 1);
    }
}

/// There is one ranking of the addresses only, so that they determine what is
/// selected.
pub proof fn selection_is_determined(all: Seq<LocalAddress>, a: Seq<int>, b: Seq<int>)
    requires
        ranks(all, a),
        ranks(all, b),
    ensures
        a == b,
        selection(all, a) == selection(all, b),
{
    lemma_rankings_agree(all, a, b, a.len() as int);
    lemma_rankings_agree(all, b, a, b.len() as int);
    assert(a =~= b);
}

/// Two addresses of one interface and family never both stand for it.
pub proof fn one_address_per_interface_and_family(all: Seq<LocalAddress>, i: int, j: int)
    requires
        represents(all, i),
        represents(all, j),
        all[i].competes_with(all[j]),
    ensures
        i == j,
{
    if i != j {
        lemma_representatives_differ(all, i, j);
    }
}

/// The view of an address of an interface holds what the address holds, and the
/// views of a list are those of its entries in their order.
pub proof fn local_address_views_hold_their_fields(
    address: LocalCandidateAddress,
    addresses: Seq<LocalCandidateAddress>,
    i: int,
)
    ensures
        address@.interface == address.interface@,
        address@.index == address.index,
        address@.ip == address.ip,
        address@.is_p2p == address.is_p2p,
        address@.oper_status == address.oper_status,
        views(addresses).len() == addresses.len(),
        0 <= i < addresses.len() ==> views(addresses)[i] == addresses[i]@,
{
}

} // verus!
