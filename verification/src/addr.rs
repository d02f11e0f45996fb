//! Internet and transport addresses.

use vstd::prelude::*;
use vstd::utf8::*;

verus! {

// ---------------------------------------------------------------------------
// Internet addresses
// ---------------------------------------------------------------------------

/// An IP address, held as the number that its octets denote in network order.
#[derive(Clone, Copy, Debug, PartialEq, Eq, Hash, Structural)]
pub enum IpAddr {
    V4(u32),
    V6(u128),
}

/// The value of octet number `i` (from the left) of an IPv4 address.
pub open spec fn v4_octet(bits: u32, i: int) -> int {
    if i == 0 {
        bits as int / 0x100_0000
    } else if i == 1 {
        bits as int / 0x1_0000 % 0x100
    } else if i == 2 {
        bits as int / 0x100 % 0x100
    } else {
        bits as int % 0x100
    }
}

/// The value of the first sixteen bits of an IPv6 address.
pub open spec fn v6_first_segment(bits: u128) -> int {
    bits as int / 0x1_0000_0000_0000_0000_0000_0000_0000
}

impl IpAddr {
    /// The IPv4 address with these four octets.
    pub fn v4(a: u8, b: u8, c: u8, d: u8) -> (ip: IpAddr)
        ensures
            ip matches IpAddr::V4(bits) && v4_octet(bits, 0) == a && v4_octet(bits, 1) == b
                && v4_octet(bits, 2) == c && v4_octet(bits, 3) == d,
    {
        IpAddr::V4(
            (a as u32) * 0x100_0000 + (b as u32) * 0x1_0000 + (c as u32) * 0x100 + (d as u32),
        )
    }

    pub open spec fn spec_is_ipv4(self) -> bool {
        self is V4
    }

    pub fn is_ipv4(&self) -> (yes: bool)
        ensures
            yes == self.spec_is_ipv4(),
    {
        match self {
            IpAddr::V4(_) => true,
            IpAddr::V6(_) => false,
        }
    }

    pub fn is_ipv6(&self) -> (yes: bool)
        ensures
            yes == !self.spec_is_ipv4(),
    {
        !self.is_ipv4()
    }

    /// `127.0.0.0/8` and `::1`.
    pub open spec fn loopback(self) -> bool {
        match self {
            IpAddr::V4(bits) => v4_octet(bits, 0) == 127,
            IpAddr::V6(bits) => bits == 1,
        }
    }

    pub fn is_loopback(&self) -> (yes: bool)
        ensures
            yes == self.loopback(),
    {
        match self {
            IpAddr::V4(bits) => *bits / 0x100_0000 == 127,
            IpAddr::V6(bits) => *bits == 1,
        }
    }

    /// The all-zero address.
    pub open spec fn unspecified(self) -> bool {
        match self {
            IpAddr::V4(bits) => bits == 0,
            IpAddr::V6(bits) => bits == 0,
        }
    }

    pub fn is_unspecified(&self) -> (yes: bool)
        ensures
            yes == self.unspecified(),
    {
        match self {
            IpAddr::V4(bits) => *bits == 0,
            IpAddr::V6(bits) => *bits == 0,
        }
    }

    /// `169.254.0.0/16` and `fe80::/10`.
    pub open spec fn link_local(self) -> bool {
        match self {
            IpAddr::V4(bits) => v4_octet(bits, 0) == 169 && v4_octet(bits, 1) == 254,
            IpAddr::V6(bits) => 0xfe80 <= v6_first_segment(bits) < 0xfec0,
        }
    }

    pub fn is_link_local(&self) -> (yes: bool)
        ensures
            yes == self.link_local(),
    {
        match self {
            IpAddr::V4(bits) => *bits / 0x100_0000 == 169 && *bits / 0x1_0000 % 0x100 == 254,
            IpAddr::V6(bits) => {
                let first: u128 = *bits / 0x1_0000_0000_0000_0000_0000_0000_0000;
                0xfe80 <= first && first < 0xfec0
            },
        }
    }

    /// `224.0.0.0/4` and `ff00::/8`.
    pub open spec fn multicast(self) -> bool {
        match self {
            IpAddr::V4(bits) => 224 <= v4_octet(bits, 0) < 240,
            IpAddr::V6(bits) => v6_first_segment(bits) >= 0xff00,
        }
    }

    pub fn is_multicast(&self) -> (yes: bool)
        ensures
            yes == self.multicast(),
    {
        match self {
            IpAddr::V4(bits) => 224 <= *bits / 0x100_0000 && *bits / 0x100_0000 < 240,
            IpAddr::V6(bits) => *bits / 0x1_0000_0000_0000_0000_0000_0000_0000 >= 0xff00,
        }
    }

    /// `255.255.255.255`.
    pub open spec fn broadcast(self) -> bool {
        self == IpAddr::V4(0xffff_ffff)
    }

    pub fn is_broadcast(&self) -> (yes: bool)
        ensures
            yes == self.broadcast(),
    {
        match self {
            IpAddr::V4(bits) => *bits == 0xffff_ffff,
            IpAddr::V6(_) => false,
        }
    }

    /// Addresses reserved for private networks: `10.0.0.0/8`, `172.16.0.0/12`,
    /// `192.168.0.0/16` and `fc00::/7`.
    pub open spec fn private_use(self) -> bool {
        match self {
            IpAddr::V4(bits) => {
                ||| v4_octet(bits, 0) == 10
                ||| v4_octet(bits, 0) == 172 && 16 <= v4_octet(bits, 1) < 32
                ||| v4_octet(bits, 0) == 192 && v4_octet(bits, 1) == 168
            },
            IpAddr::V6(bits) => 0xfc00 <= v6_first_segment(bits) < 0xfe00,
        }
    }

    pub fn is_private_use(&self) -> (yes: bool)
        ensures
            yes == self.private_use(),
    {
        match self {
            IpAddr::V4(bits) => {
                let a: u32 = *bits / 0x100_0000;
                let b: u32 = *bits / 0x1_0000 % 0x100;
                a == 10 || (a == 172 && 16 <= b && b < 32) || (a == 192 && b == 168)
            },
            IpAddr::V6(bits) => {
                let first: u128 = *bits / 0x1_0000_0000_0000_0000_0000_0000_0000;
                0xfc00 <= first && first < 0xfe00
            },
        }
    }

    /// The address order: every IPv4 address comes before every IPv6 address,
    /// and within a family addresses are ordered by their octets.
    pub open spec fn precedes(self, other: IpAddr) -> bool {
        match (self, other) {
            (IpAddr::V4(a), IpAddr::V4(b)) => a < b,
            (IpAddr::V4(_), IpAddr::V6(_)) => true,
            (IpAddr::V6(_), IpAddr::V4(_)) => false,
            (IpAddr::V6(a), IpAddr::V6(b)) => a < b,
        }
    }

    pub fn is_before(&self, other: &IpAddr) -> (yes: bool)
        ensures
            yes == self.precedes(*other),
    {
        match (*self, *other) {
            (IpAddr::V4(a), IpAddr::V4(b)) => a < b,
            (IpAddr::V4(_), IpAddr::V6(_)) => true,
            (IpAddr::V6(_), IpAddr::V4(_)) => false,
            (IpAddr::V6(a), IpAddr::V6(b)) => a < b,
        }
    }

    /// The text of the address.
    pub fn text(&self) -> (s: String)
        ensures
            s@ == ip_text(*self),
    {
        print_ip(*self)
    }
}

/// An IP address and a port.
#[allow(inconsistent_fields)]
#[derive(Clone, Copy, Debug, PartialEq, Eq, Hash, Structural)]
pub enum SocketAddr {
    V4 { ip: u32, port: u16 },
    V6 { ip: u128, port: u16, flowinfo: u32, scope_id: u32 },
}

impl SocketAddr {
    /// The address with this IP and port; an IPv6 address has no flow
    /// information and no scope.
    pub open spec fn spec_new(ip: IpAddr, port: u16) -> SocketAddr {
        match ip {
            IpAddr::V4(bits) => SocketAddr::V4 { ip: bits, port },
            IpAddr::V6(bits) => SocketAddr::V6 { ip: bits, port, flowinfo: 0, scope_id: 0 },
        }
    }

    pub fn new(ip: IpAddr, port: u16) -> (addr: SocketAddr)
        ensures
            addr == SocketAddr::spec_new(ip, port),
    {
        match ip {
            IpAddr::V4(bits) => SocketAddr::V4 { ip: bits, port },
            IpAddr::V6(bits) => SocketAddr::V6 { ip: bits, port, flowinfo: 0, scope_id: 0 },
        }
    }

    pub open spec fn spec_ip(self) -> IpAddr {
        match self {
            SocketAddr::V4 { ip, .. } => IpAddr::V4(ip),
            SocketAddr::V6 { ip, .. } => IpAddr::V6(ip),
        }
    }

    pub fn ip(&self) -> (ip: IpAddr)
        ensures
            ip == self.spec_ip(),
    {
        match self {
            SocketAddr::V4 { ip, .. } => IpAddr::V4(*ip),
            SocketAddr::V6 { ip, .. } => IpAddr::V6(*ip),
        }
    }

    pub open spec fn spec_port(self) -> u16 {
        match self {
            SocketAddr::V4 { port, .. } => port,
            SocketAddr::V6 { port, .. } => port,
        }
    }

    pub fn port(&self) -> (port: u16)
        ensures
            port == self.spec_port(),
    {
        match self {
            SocketAddr::V4 { port, .. } => *port,
            SocketAddr::V6 { port, .. } => *port,
        }
    }

    pub fn is_ipv4(&self) -> (yes: bool)
        ensures
            yes == (*self is V4),
    {
        match self {
            SocketAddr::V4 { .. } => true,
            SocketAddr::V6 { .. } => false,
        }
    }

    /// The text of the address.
    pub fn text(&self) -> (s: String)
        ensures
            s@ == socket_addr_text(*self),
    {
        print_socket_addr(*self)
    }

    /// The address that a text in numeric form denotes.
    pub fn parse(text: &str) -> (addr: Option<SocketAddr>)
        ensures
            addr == numeric_socket_addr(text@),
    {
        match parse_socket_addr(text) {
            Ok(addr) => Some(addr),
            Err(_) => None,
        }
    }
}

/// Whether both addresses belong to the same IP family.
pub open spec fn same_family(a: SocketAddr, b: SocketAddr) -> bool {
    (a is V4) == (b is V4)
}

pub fn socket_addr_families_compatible(local: SocketAddr, remote: SocketAddr) -> (yes: bool)
    ensures
        yes == same_family(local, remote),
{
    local.is_ipv4() == remote.is_ipv4()
}

/// What `str::parse` reads as a `core::net::SocketAddr`: the address that a
/// numeric text denotes, and nothing where it is no such text.
pub uninterp spec fn numeric_socket_addr(text: Seq<char>) -> Option<SocketAddr>;

/// What `Display` prints for the error of reading a text that denotes no
/// `core::net::SocketAddr`.
pub uninterp spec fn socket_addr_error(text: Seq<char>) -> Seq<char>;

/// `str::parse` into a `core::net::SocketAddr`, and the text of its error. Both
/// are functions of the given text alone; which texts denote an address is not
/// stated here.
#[verifier::external_body]
pub(crate) fn parse_socket_addr(text: &str) -> (addr: Result<SocketAddr, String>)
    ensures
        match addr {
            Ok(a) => numeric_socket_addr(text@) == Some(a),
            Err(e) => numeric_socket_addr(text@) is None && e@ == socket_addr_error(text@),
        },
{
    match text.parse::<core::net::SocketAddr>() {
        Ok(core::net::SocketAddr::V4(a)) => Ok(
            SocketAddr::V4 { ip: a.ip().to_bits(), port: a.port() },
        ),
        Ok(core::net::SocketAddr::V6(a)) => {
            let (flowinfo, scope_id) = (a.flowinfo(), a.scope_id());
            Ok(SocketAddr::V6 { ip: a.ip().to_bits(), port: a.port(), flowinfo, scope_id })
        },
        Err(e) => Err(e.to_string()),
    }
}

/// What `Display` prints for a `core::net::SocketAddr`.
pub uninterp spec fn socket_addr_text(addr: SocketAddr) -> Seq<char>;

/// `ToString::to_string` on a `core::net::SocketAddr`. The result is a function
/// of the address alone.
#[verifier::external_body]
pub(crate) fn print_socket_addr(addr: SocketAddr) -> (text: String)
    ensures
        text@ == socket_addr_text(addr),
{
    match addr {
        SocketAddr::V4 { ip, port } => core::net::SocketAddrV4::new(
            core::net::Ipv4Addr::from_bits(ip),
            port,
        ).to_string(),
        SocketAddr::V6 { ip, port, flowinfo, scope_id } => core::net::SocketAddrV6::new(
            core::net::Ipv6Addr::from_bits(ip),
            port,
            flowinfo,
            scope_id,
        ).to_string(),
    }
}

/// What `Display` prints for a `core::net::IpAddr`.
pub uninterp spec fn ip_text(ip: IpAddr) -> Seq<char>;

/// `ToString::to_string` on a `core::net::IpAddr`. The result is a function of
/// the address alone.
#[verifier::external_body]
pub(crate) fn print_ip(ip: IpAddr) -> (text: String)
    ensures
        text@ == ip_text(ip),
{
    match ip {
        IpAddr::V4(bits) => core::net::Ipv4Addr::from_bits(bits).to_string(),
        IpAddr::V6(bits) => core::net::Ipv6Addr::from_bits(bits).to_string(),
    }
}

// ---------------------------------------------------------------------------
// Transport addresses
// ---------------------------------------------------------------------------

/// Identifies one transport instance.
#[derive(Clone, Copy, Debug, PartialEq, Eq, Hash, Structural)]
pub struct TransportId {
    pub id: u32,
}

impl TransportId {
    pub fn new(id: u32) -> (transport_id: TransportId)
        ensures
            transport_id.id == id,
    {
        TransportId { id }
    }
}

/// A peer's address as a transport understands it: opaque bytes, most often text.
#[derive(Debug, Hash)]
pub struct TransportAddr {
    pub bytes: Vec<u8>,
}

impl View for TransportAddr {
    type V = Seq<u8>;

    open spec fn view(&self) -> Seq<u8> {
        self.bytes@
    }
}

impl Clone for TransportAddr {
    fn clone(&self) -> (copy: TransportAddr)
        ensures
            copy@ == self@,
    {
        let mut bytes: Vec<u8> = Vec::new();
        let mut i: usize = 0;
        while i < self.bytes.len()
            invariant
                i <= self.bytes@.len(),
                bytes@ == self.bytes@.take(i as int),
            decreases self.bytes@.len() - i,
        {
            bytes.push(self.bytes[i]);
            i = i + 1;
            assert(self.bytes@.take(i as int) =~= self.bytes@.take(i - 1).push(self.bytes@[i - 1]));
        }
        assert(self.bytes@.take(i as int) =~= self.bytes@);
        TransportAddr { bytes }
    }
}

/// Whether two byte vectors are equal.
pub fn same_bytes(x: &Vec<u8>, y: &Vec<u8>) -> (same: bool)
    ensures
        same == (x@ == y@),
{
    if x.len() != y.len() {
        return false;
    }
    let mut i: usize = 0;
    while i < x.len()
        invariant
            i <= x@.len() == y@.len(),
            forall|k: int| 0 <= k < i ==> x@[k] == y@[k],
        decreases x@.len() - i,
    {
        if x[i] != y[i] {
            return false;
        }
        i = i + 1;
    }
    assert(x@ =~= y@);
    true
}

/// `core::str::from_utf8`: succeeds exactly on well-formed UTF-8, and the string
/// it returns has the given bytes.
#[verifier::external_body]
fn utf8_text(bytes: &Vec<u8>) -> (text: Option<&str>)
    ensures
        text is Some <==> valid_utf8(bytes@),
        text matches Some(s) ==> encode_utf8(s@) == bytes@,
{
    core::str::from_utf8(bytes).ok()
}

impl TransportAddr {
    /// An address with the given bytes.
    pub fn new(bytes: Vec<u8>) -> (addr: TransportAddr)
        ensures
            addr@ == bytes@,
    {
        TransportAddr { bytes }
    }

    /// The address whose bytes are those of a text.
    pub fn from_string(text: &str) -> (addr: TransportAddr)
        ensures
            addr@ == encode_utf8(text@),
    {
        TransportAddr { bytes: text.as_bytes_vec() }
    }

    /// The address whose bytes are the text of a socket address.
    pub fn from_socket_addr(addr: SocketAddr) -> (transport_addr: TransportAddr)
        ensures
            transport_addr@ == encode_utf8(socket_addr_text(addr)),
    {
        let text = addr.text();
        TransportAddr::from_string(text.as_str())
    }

    /// The text that an address holds: some exactly where its bytes are UTF-8.
    pub open spec fn spec_text(bytes: Seq<u8>) -> Option<Seq<char>> {
        if valid_utf8(bytes) {
            Some(decode_utf8(bytes))
        } else {
            None
        }
    }

    pub fn as_str(&self) -> (text: Option<&str>)
        ensures
            match text {
                Some(s) => TransportAddr::spec_text(self@) == Some(s@),
                None => TransportAddr::spec_text(self@) is None,
            },
    {
        let text = utf8_text(&self.bytes);
        proof {
            if let Some(s) = text {
                encode_utf8_decode_utf8(s@);
            }
        }
        text
    }

    pub fn same(&self, other: &TransportAddr) -> (same: bool)
        ensures
            same == (self@ == other@),
    {
        same_bytes(&self.bytes, &other.bytes)
    }

    /// The text of an address made from a text is that text.
    pub proof fn text_round_trip(text: Seq<char>)
        ensures
            TransportAddr::spec_text(encode_utf8(text)) == Some(text),
    {
        encode_utf8_decode_utf8(text);
        encode_utf8_valid_utf8(text);
    }
}

// ---------------------------------------------------------------------------
// Laws
// ---------------------------------------------------------------------------

/// The special IPv4 addresses are blocks of consecutive numbers: `127.0.0.0/8`,
/// `169.254.0.0/16`, `224.0.0.0/4`, the private networks, and the first and the
/// last number.
pub proof fn ipv4_blocks(bits: u32)
    ensures
        IpAddr::V4(bits).loopback() <==> 0x7f00_0000 <= bits <= 0x7fff_ffff,
        IpAddr::V4(bits).link_local() <==> 0xa9fe_0000 <= bits <= 0xa9fe_ffff,
        IpAddr::V4(bits).multicast() <==> 0xe000_0000 <= bits <= 0xefff_ffff,
        IpAddr::V4(bits).unspecified() <==> bits == 0,
        IpAddr::V4(bits).broadcast() <==> bits == 0xffff_ffff,
        IpAddr::V4(bits).private_use() <==> (0x0a00_0000 <= bits <= 0x0aff_ffff || 0xac10_0000
            <= bits <= 0xac1f_ffff || 0xc0a8_0000 <= bits <= 0xc0a8_ffff),
{
}

/// The special IPv6 addresses are blocks of consecutive numbers: `::`, `::1`,
/// `fc00::/7`, `fe80::/10` and `ff00::/8`. None is a broadcast address.
pub proof fn ipv6_blocks(bits: u128)
    ensures
        IpAddr::V6(bits).loopback() <==> bits == 1,
        IpAddr::V6(bits).unspecified() <==> bits == 0,
        IpAddr::V6(bits).link_local() <==> 0xfe80_0000_0000_0000_0000_0000_0000_0000u128 <= bits
            <= 0xfebf_ffff_ffff_ffff_ffff_ffff_ffff_ffffu128,
        IpAddr::V6(bits).multicast() <==> 0xff00_0000_0000_0000_0000_0000_0000_0000u128 <= bits,
        IpAddr::V6(bits).private_use() <==> 0xfc00_0000_0000_0000_0000_0000_0000_0000u128 <= bits
            <= 0xfdff_ffff_ffff_ffff_ffff_ffff_ffff_ffffu128,
        !IpAddr::V6(bits).broadcast(),
{
}

/// The link-local blocks are those of the addresses that begin with the bits of
/// `169.254` and of `fe80::/10`.
pub proof fn link_local_prefixes(v4: u32, v6: u128)
    ensures
        IpAddr::V4(v4).link_local() <==> v4 >> 16 == 0xa9fe,
        IpAddr::V6(v6).link_local() <==> v6 >> 118 == 0x3fa,
{
    ipv4_blocks(v4);
    ipv6_blocks(v6);
    assert(v4 >> 16 == 0xa9fe <==> 0xa9fe_0000 <= v4 && v4 <= 0xa9fe_ffff) by (bit_vector);
    assert(v6 >> 118 == 0x3fa <==> 0xfe80_0000_0000_0000_0000_0000_0000_0000u128 <= v6 && v6
        <= 0xfebf_ffff_ffff_ffff_ffff_ffff_ffff_ffffu128) by (bit_vector);
}

/// Addresses are ordered: none comes before itself, of two different ones exactly
/// one comes before the other, and every IPv4 address comes before every IPv6
/// address.
pub proof fn addresses_are_ordered(a: IpAddr, b: IpAddr, v4: u32, v6: u128)
    ensures
        !a.precedes(a),
        a != b ==> (a.precedes(b) <==> !b.precedes(a)),
        IpAddr::V4(v4).precedes(IpAddr::V6(v6)),
        a matches IpAddr::V4(x) ==> (b matches IpAddr::V4(y) ==> (a.precedes(b) <==> x < y)),
        a matches IpAddr::V6(x) ==> (b matches IpAddr::V6(y) ==> (a.precedes(b) <==> x < y)),
{
}

/// An address made of an IP address and a port has that IP address and that port.
pub proof fn socket_addresses_hold_their_parts(
    ip: IpAddr,
    port: u16,
    v4: u32,
    v6: u128,
    flowinfo: u32,
    scope_id: u32,
)
    ensures
        SocketAddr::spec_new(ip, port).spec_ip() == ip,
        SocketAddr::spec_new(ip, port).spec_port() == port,
        (SocketAddr::V4 { ip: v4, port }).spec_ip() == IpAddr::V4(v4),
        (SocketAddr::V4 { ip: v4, port }).spec_port() == port,
        (SocketAddr::V6 { ip: v6, port, flowinfo, scope_id }).spec_ip() == IpAddr::V6(v6),
        (SocketAddr::V6 { ip: v6, port, flowinfo, scope_id }).spec_port() == port,
        SocketAddr::spec_new(ip, port) matches SocketAddr::V6 { flowinfo: f, scope_id: s, .. }
            ==> f == 0 && s == 0,
        IpAddr::V4(v4).spec_is_ipv4(),
        !IpAddr::V6(v6).spec_is_ipv4(),
{
}

/// Two addresses belong to one family where both are IPv4 addresses or neither is.
pub proof fn families_are_told_apart(a: SocketAddr, b: SocketAddr)
    ensures
        same_family(a, b) <==> a.spec_ip().spec_is_ipv4() == b.spec_ip().spec_is_ipv4(),
        a is V4 && b is V6 ==> !same_family(a, b),
        same_family(a, a),
{
}

/// The view of a transport address is its bytes, and its text is what they say in
/// UTF-8.
pub proof fn transport_addresses_are_their_bytes(addr: TransportAddr, text: Seq<char>)
    ensures
        addr@ == addr.bytes@,
        addr@ == encode_utf8(text) ==> TransportAddr::spec_text(addr@) == Some(text),
        TransportAddr::spec_text(addr@) is Some <==> valid_utf8(addr.bytes@),
{
    TransportAddr::text_round_trip(text);
}

} // verus!
