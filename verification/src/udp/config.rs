//! Settings of a UDP transport.

use vstd::prelude::*;

verus! {

/// Settings of a UDP transport; an unset flag has its default.
#[derive(Debug)]
pub struct UdpConfig {
    pub bind_addr: String,
    pub mtu: u16,
    pub recv_buf_size: usize,
    pub send_buf_size: usize,
    pub accept_connections: Option<bool>,
    pub outbound_only: Option<bool>,
    pub public: Option<bool>,
}

impl UdpConfig {
    /// Whether the transport only ever begins connections itself; it does not
    /// unless set.
    pub open spec fn spec_outbound_only(self) -> bool {
        self.outbound_only == Some(true)
    }

    pub fn outbound_only(&self) -> (yes: bool)
        ensures
            yes == self.spec_outbound_only(),
    {
        match self.outbound_only {
            Some(set) => set,
            None => false,
        }
    }

    /// Whether peers may begin connections; they may unless set otherwise.
    pub open spec fn spec_accept_connections(self) -> bool {
        self.accept_connections != Some(false)
    }

    pub fn accept_connections(&self) -> (yes: bool)
        ensures
            yes == self.spec_accept_connections(),
    {
        match self.accept_connections {
            Some(set) => set,
            None => true,
        }
    }

    /// Whether the transport is publicly reachable; it is not unless set.
    pub open spec fn spec_is_public(self) -> bool {
        self.public == Some(true)
    }

    pub fn is_public(&self) -> (yes: bool)
        ensures
            yes == self.spec_is_public(),
    {
        match self.public {
            Some(set) => set,
            None => false,
        }
    }

    /// The address to bind: any port of any address for a transport that only
    /// begins connections itself, and else the configured one.
    pub open spec fn spec_bind_addr(self) -> Seq<char> {
        if self.spec_outbound_only() {
            "0.0.0.0:0"@
        } else {
            self.bind_addr@
        }
    }

    pub fn bind_addr(&self) -> (addr: &str)
        ensures
            addr@ == self.spec_bind_addr(),
    {
        if self.outbound_only() {
            "0.0.0.0:0"
        } else {
            self.bind_addr.as_str()
        }
    }
}

/// What settings mean where they are left out: a transport accepts connections, is
/// not public and does not only begin connections itself. One that does binds any
/// port, whatever address is set.
pub proof fn settings_have_defaults(config: UdpConfig)
    ensures
        config.accept_connections is None ==> config.spec_accept_connections(),
        config.accept_connections matches Some(set) ==> config.spec_accept_connections() == set,
        config.outbound_only is None ==> !config.spec_outbound_only(),
        config.outbound_only matches Some(set) ==> config.spec_outbound_only() == set,
        config.public is None ==> !config.spec_is_public(),
        config.public matches Some(set) ==> config.spec_is_public() == set,
        config.outbound_only != Some(true) ==> config.spec_bind_addr() == config.bind_addr@,
        config.outbound_only == Some(true) ==> config.spec_bind_addr() == "0.0.0.0:0"@,
{
}

} // verus!
