//! Addresses behind Tor.

use vstd::prelude::*;
use vstd::utf8::*;
use crate::addr::{SocketAddr, TransportAddr, numeric_socket_addr};
use crate::decimal::{
    decimal_text, decimal_text_reads_back, parsed_unsigned, read_unsigned,
};
use crate::error::{Failure, TransportError, joined};
use crate::text::{chars_of, ends_with, has, occurs_in, stands_at, string_of};
use crate::rtc::keys::{addr_shown, show_addr};

verus! {

/// Where a connection through Tor leads.
#[derive(Debug)]
pub enum TorAddr {
    /// An onion service: host name and port.
    Onion(String, u16),
    /// An address outside Tor.
    Clearnet(SocketAddr),
    /// A host outside Tor, which Tor resolves: host name and port.
    ClearnetHostname(String, u16),
}

/// Where a connection through Tor leads, as a mathematical value.
pub enum TorTarget {
    Onion(Seq<char>, u16),
    Clearnet(SocketAddr),
    ClearnetHostname(Seq<char>, u16),
}

impl View for TorAddr {
    type V = TorTarget;

    open spec fn view(&self) -> TorTarget {
        match self {
            TorAddr::Onion(host, port) => TorTarget::Onion(host@, *port),
            TorAddr::Clearnet(addr) => TorTarget::Clearnet(*addr),
            TorAddr::ClearnetHostname(host, port) => TorTarget::ClearnetHostname(host@, *port),
        }
    }
}

/// The last position of a colon before `n`.
pub open spec fn last_colon(s: Seq<char>, n: int) -> Option<int>
    decreases n,
{
    if n <= 0 {
        None
    } else if s[n - 1] == ':' {
        Some(n - 1)
    } else {
        last_colon(s, n - 1)
    }
}

fn find_last_colon(v: &Vec<char>) -> (at: Option<usize>)
    ensures
        match at {
            Some(i) => last_colon(v@, v@.len() as int) == Some(i as int) && i < v@.len(),
            None => last_colon(v@, v@.len() as int) is None,
        },
{
    let mut n: usize = v.len();
    while n > 0
        invariant
            n <= v@.len(),
            last_colon(v@, v@.len() as int) == last_colon(v@, n as int),
        decreases n,
    {
        if v[n - 1] == ':' {
            return Some(n - 1);
        }
        n = n - 1;
    }
    None
}

/// The part of a text after its last colon, where it has one, as a port.
pub open spec fn port_of(text: Seq<char>) -> Option<nat> {
    match last_colon(text, text.len() as int) {
        Some(i) => parsed_unsigned(text.subrange(i + 1, text.len() as int), u16::MAX as nat),
        None => None,
    }
}

/// The part of a text before its last colon, where it has one.
pub open spec fn host_of(text: Seq<char>) -> Option<Seq<char>> {
    match last_colon(text, text.len() as int) {
        Some(i) => Some(text.subrange(0, i)),
        None => None,
    }
}

/// What a text denotes behind Tor. `numeric` is the address that it spells out,
/// if it does.
pub open spec fn tor_target(text: Seq<char>, numeric: Option<SocketAddr>) -> Result<
    TorTarget,
    Failure,
> {
    if occurs_in(text, ".onion:"@) {
        match host_of(text) {
            None => Err(Failure::InvalidAddress("invalid onion address: "@ + text)),
            Some(host) => match port_of(text) {
                Some(port) => Ok(TorTarget::Onion(host, port as u16)),
                None => Err(
                    Failure::InvalidAddress("invalid port in onion address: "@ + text),
                ),
            },
        }
    } else {
        match numeric {
            Some(addr) => Ok(TorTarget::Clearnet(addr)),
            None => match host_of(text) {
                None => Err(
                    Failure::InvalidAddress("invalid address (expected host:port): "@ + text),
                ),
                Some(host) => match port_of(text) {
                    None => Err(Failure::InvalidAddress("invalid port: "@ + text)),
                    Some(port) => if host.contains('.') {
                        Ok(TorTarget::ClearnetHostname(host, port as u16))
                    } else {
                        Err(
                            Failure::InvalidAddress(
                                "hostname must be fully qualified (contain a dot): "@ + host,
                            ),
                        )
                    },
                },
            },
        }
    }
}

fn has_dot(v: &Vec<char>, to: usize) -> (yes: bool)
    requires
        to <= v@.len(),
    ensures
        yes == v@.subrange(0, to as int).contains('.'),
{
    let ghost part = v@.subrange(0, to as int);
    let mut i: usize = 0;
    while i < to
        invariant
            i <= to <= v@.len(),
            part == v@.subrange(0, to as int),
            forall|k: int| 0 <= k < i ==> #[trigger] part[k] != '.',
        decreases to - i,
    {
        assert(part[i as int] == v@[i as int]);
        if v[i] == '.' {
            return true;
        }
        i = i + 1;
    }
    false
}

/// Finds what a text denotes behind Tor, given the address that it spells out,
/// if it does.
pub fn classify_tor_addr(text: &str, numeric: Option<SocketAddr>) -> (result: Result<
    TorAddr,
    TransportError,
>)
    ensures
        match result {
            Ok(addr) => tor_target(text@, numeric) == Ok::<TorTarget, Failure>(addr@),
            Err(error) => tor_target(text@, numeric) == Err::<TorTarget, Failure>(error@),
        },
{
    let v = chars_of(text);
    let total: usize = v.len();
    let marker = chars_of(".onion:");
    if has(&v, &marker) {
        return match find_last_colon(&v) {
            None => Err(TransportError::InvalidAddress(joined("invalid onion address: ", text))),
            Some(i) => match read_unsigned(&v, i + 1, total, 65_535) {
                None => Err(
                    TransportError::InvalidAddress(
                        joined("invalid port in onion address: ", text),
                    ),
                ),
                Some(port) => Ok(TorAddr::Onion(string_of(&v, 0, i), port as u16)),
            },
        };
    }
    match numeric {
        Some(addr) => {
            return Ok(TorAddr::Clearnet(addr));
        },
        None => {},
    }
    match find_last_colon(&v) {
        None => Err(
            TransportError::InvalidAddress(joined("invalid address (expected host:port): ", text)),
        ),
        Some(i) => match read_unsigned(&v, i + 1, total, 65_535) {
            None => Err(TransportError::InvalidAddress(joined("invalid port: ", text))),
            Some(port) => {
                let host = string_of(&v, 0, i);
                if !has_dot(&v, i) {
                    return Err(
                        TransportError::InvalidAddress(
                            joined(
                                "hostname must be fully qualified (contain a dot): ",
                                host.as_str(),
                            ),
                        ),
                    );
                }
                Ok(TorAddr::ClearnetHostname(host, port as u16))
            },
        },
    }
}

/// What a transport address denotes behind Tor.
pub open spec fn target_of(addr: Seq<u8>) -> Result<TorTarget, Failure> {
    match TransportAddr::spec_text(addr) {
        None => Err(
            Failure::InvalidAddress("Tor address must be a valid UTF-8 string"@),
        ),
        Some(text) => tor_target(text, numeric_socket_addr(text)),
    }
}

/// Finds what a transport address denotes behind Tor.
pub fn parse_tor_addr(addr: &TransportAddr) -> (result: Result<TorAddr, TransportError>)
    ensures
        match result {
            Ok(target) => target_of(addr@) == Ok::<TorTarget, Failure>(target@),
            Err(error) => target_of(addr@) == Err::<TorTarget, Failure>(error@),
        },
{
    match addr.as_str() {
        None => Err(
            TransportError::InvalidAddress("Tor address must be a valid UTF-8 string".to_owned()),
        ),
        Some(text) => classify_tor_addr(text, SocketAddr::parse(text)),
    }
}

/// The user under which connections are asked of the proxy.
pub const PROXY_USER: &'static str = "fips";

/// What the proxy is told of who asks for a connection. The proxy does not check
/// it: connections that are asked for under different passwords use different
/// circuits.
#[derive(Debug)]
pub struct ProxyLogin {
    pub user: String,
    pub password: String,
}

/// What the proxy is told when a connection to an address is asked for: the
/// password is the address itself, so that each address has circuits of its own.
pub fn proxy_login(addr: &TransportAddr) -> (login: ProxyLogin)
    ensures
        login.user@ == PROXY_USER@,
        login.password@ == addr_shown(addr@),
{
    ProxyLogin { user: PROXY_USER.to_owned(), password: show_addr(addr) }
}

/// Whether a text has the form of a host and a port.
pub open spec fn names_host_port(text: Seq<char>) -> bool {
    &&& port_of(text) is Some
    &&& host_of(text) matches Some(host) && host.len() > 0
}

/// The failure of a setting that is no host and port.
pub open spec fn not_host_port(field: Seq<char>, text: Seq<char>) -> Failure {
    Failure::StartFailed(
        "invalid "@ + field + " '"@ + text + "': expected host:port or IP:port"@,
    )
}

/// Checks a setting, given whether it spells out an address.
pub fn check_host_port(addr: &str, field_name: &str, is_numeric: bool) -> (result: Result<
    (),
    TransportError,
>)
    ensures
        match result {
            Ok(_) => is_numeric || names_host_port(addr@),
            Err(error) => !is_numeric && !names_host_port(addr@) && error@ == not_host_port(
                field_name@,
                addr@,
            ),
        },
{
    if is_numeric {
        return Ok(());
    }
    let v = chars_of(addr);
    let total: usize = v.len();
    let valid = match find_last_colon(&v) {
        None => false,
        Some(i) => read_unsigned(&v, i + 1, total, 65_535).is_some() && i > 0,
    };
    if valid {
        return Ok(());
    }
    let mut message = joined("invalid ", field_name);
    message.append(" '");
    message.append(addr);
    message.append("': expected host:port or IP:port");
    Err(TransportError::StartFailed(message))
}

/// Checks that a setting is a host and a port.
pub fn validate_host_port(addr: &str, field_name: &str) -> (result: Result<(), TransportError>)
    ensures
        match result {
            Ok(_) => numeric_socket_addr(addr@) is Some || names_host_port(addr@),
            Err(error) => numeric_socket_addr(addr@) is None && !names_host_port(addr@) && error@
                == not_host_port(field_name@, addr@),
        },
{
    check_host_port(addr, field_name, SocketAddr::parse(addr).is_some())
}

// ---------------------------------------------------------------------------
// Laws
// ---------------------------------------------------------------------------

proof fn lemma_no_colon(s: Seq<char>, from: int, n: int)
    requires
        0 <= from <= n <= s.len(),
        forall|i: int| from <= i < n ==> #[trigger] s[i] != ':',
    ensures
        last_colon(s, n) == last_colon(s, from),
    decreases n - from,
{
    if n > from {
        lemma_no_colon(s, from, n - 1);
    }
}

proof fn lemma_decimal_digits(n: nat)
    ensures
        forall|i: int|
            0 <= i < decimal_text(n).len() ==> '0' <= #[trigger] decimal_text(n)[i] <= '9',
{
    decimal_text_reads_back(n);
}

/// An onion service that is advertised as its host name, a colon and its port is
/// found again at the same host name and port.
pub proof fn advertised_onion_is_found(host: Seq<char>, port: u16, numeric: Option<SocketAddr>)
    requires
        ends_with(host, ".onion"@),
    ensures
        tor_target(host + ":"@ + decimal_text(port as nat), numeric) == Ok::<TorTarget, Failure>(
            TorTarget::Onion(host, port),
        ),
{
    let digits = decimal_text(port as nat);
    let text = host + ":"@ + digits;
    reveal_strlit(":");
    reveal_strlit(".onion");
    reveal_strlit(".onion:");
    lemma_decimal_digits(port as nat);
    decimal_text_reads_back(port as nat);
    let at = host.len() as int;
    assert(text[at] == ':');
    assert forall|i: int| at + 1 <= i < text.len() implies #[trigger] text[i] != ':' by {
        assert(text[i] == digits[i - at - 1]);
    }
    lemma_no_colon(text, at + 1, text.len() as int);
    assert(last_colon(text, text.len() as int) == Some(at));
    assert(text.subrange(0, at) =~= host);
    assert(text.subrange(at + 1, text.len() as int) =~= digits);
    let start = at - 6;
    assert(text.subrange(start, start + 7) =~= ".onion:"@) by {
        assert(host.subrange(start, at) =~= ".onion"@);
        assert forall|i: int| 0 <= i < 7 implies text.subrange(start, start + 7)[i]
            == ".onion:"@[i] by {
            if i < 6 {
                assert(text[start + i] == host[start + i]);
                assert(host.subrange(start, at)[i] == host[start + i]);
                assert(".onion"@[i] == ".onion:"@[i]);
            }
        }
    }
    assert(stands_at(text, ".onion:"@, start));
}

/// Two addresses to which Tor can connect share circuits only where they are the
/// same: the proxy is told the same password for both only then.
pub proof fn circuits_are_kept_apart(a: Seq<u8>, b: Seq<u8>)
    requires
        target_of(a) is Ok,
        target_of(b) is Ok,
    ensures
        addr_shown(a) == addr_shown(b) <==> a == b,
{
    decode_utf8_encode_utf8(a);
    decode_utf8_encode_utf8(b);
}

/// A bare host name without a port is not an address.
pub proof fn host_without_port_is_refused(text: Seq<char>)
    requires
        !text.contains(':'),
    ensures
        tor_target(text, None) == Err::<TorTarget, Failure>(
            Failure::InvalidAddress("invalid address (expected host:port): "@ + text),
        ),
{
    reveal_strlit(".onion:");
    lemma_no_colon(text, 0, text.len() as int);
    if occurs_in(text, ".onion:"@) {
        let at = choose|at: int| stands_at(text, ".onion:"@, at);
        assert(text.subrange(at, at + 7)[6] == ':');
        assert(text[at + 6] == ':');
    }
}

/// A text is cut at its last colon: what is before it is the host, and what is
/// behind it the port.
pub proof fn texts_are_cut_at_the_last_colon(host: Seq<char>, port: Seq<char>)
    requires
        !port.contains(':'),
    ensures
        last_colon(host + seq![':'] + port, (host + seq![':'] + port).len() as int) == Some(
            host.len() as int,
        ),
        host_of(host + seq![':'] + port) == Some(host),
        port_of(host + seq![':'] + port) == parsed_unsigned(port, 65_535),
{
    let text = host + seq![':'] + port;
    let at = host.len() as int;
    assert(text[at] == ':');
    assert forall|i: int| at + 1 <= i < text.len() implies #[trigger] text[i] != ':' by {
        assert(text[i] == port[i - at - 1]);
    }
    lemma_no_colon(text, at + 1, text.len() as int);
    assert(text.subrange(0, at) =~= host);
    assert(text.subrange(at + 1, text.len() as int) =~= port);
}

/// Where a connection leads: an onion service wherever the text holds `.onion:`, the
/// address itself where the text spells one out, and else a host that Tor resolves,
/// whose name has a dot. The port is the number behind the last colon.
pub proof fn targets_are_told_apart(
    host: Seq<char>,
    port: Seq<char>,
    numeric: Option<SocketAddr>,
)
    requires
        !port.contains(':'),
    ensures
        ({
            let text = host + seq![':'] + port;
            let target = tor_target(text, numeric);
            &&& occurs_in(text, ".onion:"@) ==> match parsed_unsigned(port, 65_535) {
                Some(n) => target == Ok::<TorTarget, Failure>(TorTarget::Onion(host, n as u16)),
                None => target matches Err(Failure::InvalidAddress(_)),
            }
            &&& !occurs_in(text, ".onion:"@) ==> match numeric {
                Some(addr) => target == Ok::<TorTarget, Failure>(TorTarget::Clearnet(addr)),
                None => match parsed_unsigned(port, 65_535) {
                    Some(n) => if host.contains('.') {
                        target == Ok::<TorTarget, Failure>(
                            TorTarget::ClearnetHostname(host, n as u16),
                        )
                    } else {
                        target matches Err(Failure::InvalidAddress(_))
                    },
                    None => target matches Err(Failure::InvalidAddress(_)),
                },
            }
        }),
{
    texts_are_cut_at_the_last_colon(host, port);
}

/// An address leads where its text says.
pub proof fn addresses_lead_where_their_text_says(text: Seq<char>)
    ensures
        target_of(encode_utf8(text)) == tor_target(text, numeric_socket_addr(text)),
{
    TransportAddr::text_round_trip(text);
}

/// A setting names a host and a port exactly where something stands before its last
/// colon and a port number behind it.
pub proof fn settings_name_host_and_port(host: Seq<char>, port: Seq<char>)
    requires
        !port.contains(':'),
    ensures
        names_host_port(host + seq![':'] + port) <==> host.len() > 0 && parsed_unsigned(
            port,
            65_535,
        ) is Some,
        !names_host_port(port),
{
    texts_are_cut_at_the_last_colon(host, port);
    lemma_no_colon(port, 0, port.len() as int);
}

/// The view of an address leads to the same host and port.
pub proof fn address_views_lead_to_the_same_host(addr: TorAddr)
    ensures
        addr matches TorAddr::Onion(host, port) ==> addr@ == TorTarget::Onion(host@, port),
        addr matches TorAddr::Clearnet(socket) ==> addr@ == TorTarget::Clearnet(socket),
        addr matches TorAddr::ClearnetHostname(host, port) ==> addr@ == TorTarget::ClearnetHostname(
            host@,
            port,
        ),
{
}

/// A setting that is no host and port fails the start by its name and its text.
pub proof fn bad_settings_are_named(field: Seq<char>, text: Seq<char>)
    ensures
        not_host_port(field, text) == Failure::StartFailed(
            "invalid "@ + field + " '"@ + text + "': expected host:port or IP:port"@,
        ),
{
}

/// An address that is no text leads nowhere.
pub proof fn addresses_without_text_lead_nowhere(addr: Seq<u8>)
    requires
        TransportAddr::spec_text(addr) is None,
    ensures
        target_of(addr) == Err::<TorTarget, Failure>(
            Failure::InvalidAddress("Tor address must be a valid UTF-8 string"@),
        ),
{
}

} // verus!
