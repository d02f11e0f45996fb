//! Settings of a Tor transport.

use vstd::prelude::*;

verus! {

/// Settings of an onion service that Tor manages; what is unset has its default.
#[derive(Debug)]
pub struct DirectoryServiceConfig {
    pub hostname_file: Option<String>,
    pub bind_addr: Option<String>,
}

/// The text of a setting, or its default.
pub open spec fn set_or(setting: Option<String>, default: Seq<char>) -> Seq<char> {
    match setting {
        Some(text) => text@,
        None => default,
    }
}

impl DirectoryServiceConfig {
    /// The file in which Tor leaves the host name of the onion service.
    pub fn hostname_file(&self) -> (file: &str)
        ensures
            file@ == set_or(self.hostname_file, "/var/lib/tor/fips_onion_service/hostname"@),
    {
        match &self.hostname_file {
            Some(file) => file.as_str(),
            None => "/var/lib/tor/fips_onion_service/hostname",
        }
    }

    /// The local address that Tor forwards connections to.
    pub fn bind_addr(&self) -> (addr: &str)
        ensures
            addr@ == set_or(self.bind_addr, "127.0.0.1:8443"@),
    {
        match &self.bind_addr {
            Some(addr) => addr.as_str(),
            None => "127.0.0.1:8443",
        }
    }
}

impl Default for DirectoryServiceConfig {
    fn default() -> (config: DirectoryServiceConfig)
        ensures
            config.hostname_file is None,
            config.bind_addr is None,
    {
        DirectoryServiceConfig { hostname_file: None, bind_addr: None }
    }
}

/// Settings of a Tor transport; what is unset has its default.
#[derive(Debug)]
pub struct TorConfig {
    pub mode: Option<String>,
    pub socks5_addr: Option<String>,
    pub connect_timeout_ms: Option<u64>,
    pub mtu: Option<u16>,
    pub advertised_port: Option<u16>,
    pub control_addr: Option<String>,
    pub control_auth: Option<String>,
    pub cookie_path: Option<String>,
    pub max_inbound_connections: Option<usize>,
    pub directory_service: Option<DirectoryServiceConfig>,
}

impl TorConfig {
    pub open spec fn spec_mode(self) -> Seq<char> {
        set_or(self.mode, "socks5"@)
    }

    /// How the transport uses Tor.
    pub fn mode(&self) -> (mode: &str)
        ensures
            mode@ == self.spec_mode(),
    {
        match &self.mode {
            Some(mode) => mode.as_str(),
            None => "socks5",
        }
    }

    pub open spec fn spec_socks5_addr(self) -> Seq<char> {
        set_or(self.socks5_addr, "127.0.0.1:9050"@)
    }

    /// The proxy through which connections are made.
    pub fn socks5_addr(&self) -> (addr: &str)
        ensures
            addr@ == self.spec_socks5_addr(),
    {
        match &self.socks5_addr {
            Some(addr) => addr.as_str(),
            None => "127.0.0.1:9050",
        }
    }

    /// How long making a connection may take.
    pub fn connect_timeout_ms(&self) -> (ms: u64)
        ensures
            ms == (match self.connect_timeout_ms {
                Some(set) => set,
                None => 120_000,
            }),
    {
        match self.connect_timeout_ms {
            Some(set) => set,
            None => 120_000,
        }
    }

    pub open spec fn spec_mtu(self) -> u16 {
        match self.mtu {
            Some(set) => set,
            None => 1400,
        }
    }

    /// Bytes of the largest packet.
    pub fn mtu(&self) -> (mtu: u16)
        ensures
            mtu == self.spec_mtu(),
    {
        match self.mtu {
            Some(set) => set,
            None => 1400,
        }
    }

    /// The port under which the onion service is advertised.
    pub fn advertised_port(&self) -> (port: u16)
        ensures
            port == (match self.advertised_port {
                Some(set) => set,
                None => 443,
            }),
    {
        match self.advertised_port {
            Some(set) => set,
            None => 443,
        }
    }

    pub open spec fn spec_control_addr(self) -> Seq<char> {
        set_or(self.control_addr, "/run/tor/control"@)
    }

    /// Where Tor takes control connections.
    pub fn control_addr(&self) -> (addr: &str)
        ensures
            addr@ == self.spec_control_addr(),
    {
        match &self.control_addr {
            Some(addr) => addr.as_str(),
            None => "/run/tor/control",
        }
    }

    /// How control connections are authenticated.
    pub fn control_auth(&self) -> (auth: &str)
        ensures
            auth@ == set_or(self.control_auth, "cookie"@),
    {
        match &self.control_auth {
            Some(auth) => auth.as_str(),
            None => "cookie",
        }
    }

    /// The file that holds Tor's authentication cookie.
    pub fn cookie_path(&self) -> (path: &str)
        ensures
            path@ == set_or(self.cookie_path, "/var/run/tor/control.authcookie"@),
    {
        match &self.cookie_path {
            Some(path) => path.as_str(),
            None => "/var/run/tor/control.authcookie",
        }
    }

    pub open spec fn spec_max_inbound(self) -> usize {
        match self.max_inbound_connections {
            Some(set) => set,
            None => 64,
        }
    }

    /// How many connections peers may have begun at the same time.
    pub fn max_inbound_connections(&self) -> (n: usize)
        ensures
            n == self.spec_max_inbound(),
    {
        match self.max_inbound_connections {
            Some(set) => set,
            None => 64,
        }
    }

    pub open spec fn spec_hostname_file(self) -> Seq<char> {
        match self.directory_service {
            Some(service) => set_or(
                service.hostname_file,
                "/var/lib/tor/fips_onion_service/hostname"@,
            ),
            None => "/var/lib/tor/fips_onion_service/hostname"@,
        }
    }

    /// The file in which Tor leaves the host name of the onion service.
    pub fn hostname_file(&self) -> (file: &str)
        ensures
            file@ == self.spec_hostname_file(),
    {
        match &self.directory_service {
            Some(service) => service.hostname_file(),
            None => "/var/lib/tor/fips_onion_service/hostname",
        }
    }

    pub open spec fn spec_service_bind_addr(self) -> Seq<char> {
        match self.directory_service {
            Some(service) => set_or(service.bind_addr, "127.0.0.1:8443"@),
            None => "127.0.0.1:8443"@,
        }
    }

    /// The local address that Tor forwards connections to.
    pub fn service_bind_addr(&self) -> (addr: &str)
        ensures
            addr@ == self.spec_service_bind_addr(),
    {
        match &self.directory_service {
            Some(service) => service.bind_addr(),
            None => "127.0.0.1:8443",
        }
    }
}

impl Default for TorConfig {
    fn default() -> (config: TorConfig)
        ensures
            config.mode is None,
            config.socks5_addr is None,
            config.connect_timeout_ms is None,
            config.mtu is None,
            config.advertised_port is None,
            config.control_addr is None,
            config.control_auth is None,
            config.cookie_path is None,
            config.max_inbound_connections is None,
            config.directory_service is None,
    {
        TorConfig {
            mode: None,
            socks5_addr: None,
            connect_timeout_ms: None,
            mtu: None,
            advertised_port: None,
            control_addr: None,
            control_auth: None,
            cookie_path: None,
            max_inbound_connections: None,
            directory_service: None,
        }
    }
}

/// What is set is used, and what is not has its default.
pub proof fn settings_are_used(config: TorConfig, text: String, service: DirectoryServiceConfig)
    ensures
        config.mode == Some(text) ==> config.spec_mode() == text@,
        config.mode is None ==> config.spec_mode() == "socks5"@,
        config.socks5_addr == Some(text) ==> config.spec_socks5_addr() == text@,
        config.socks5_addr is None ==> config.spec_socks5_addr() == "127.0.0.1:9050"@,
        config.control_addr == Some(text) ==> config.spec_control_addr() == text@,
        config.control_addr is None ==> config.spec_control_addr() == "/run/tor/control"@,
        config.mtu matches Some(mtu) ==> config.spec_mtu() == mtu,
        config.mtu is None ==> config.spec_mtu() == 1400,
        config.max_inbound_connections matches Some(n) ==> config.spec_max_inbound() == n,
        config.max_inbound_connections is None ==> config.spec_max_inbound() == 64,
        config.directory_service == Some(service) && service.hostname_file == Some(text)
            ==> config.spec_hostname_file() == text@,
        config.directory_service == Some(service) && service.bind_addr == Some(text)
            ==> config.spec_service_bind_addr() == text@,
        config.directory_service is None ==> config.spec_hostname_file()
            == "/var/lib/tor/fips_onion_service/hostname"@ && config.spec_service_bind_addr()
            == "127.0.0.1:8443"@,
        set_or(Some(text), "default"@) == text@,
        set_or(None, "default"@) == "default"@,
{
}

} // verus!
