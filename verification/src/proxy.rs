//! Coordinates of a proxy server that the client may tunnel through.

use vstd::prelude::*;

verus! {

/// The kind of proxy protocol spoken towards the proxy host.
#[derive(Clone, Copy, Debug, PartialEq, Eq, Structural)]
pub enum ProxyType {
    /// HTTP proxy.
    Http,
    /// SOCKS4 proxy.
    Socks4,
    /// SOCKS5 proxy.
    Socks5,
}

/// Proxy configuration: protocol, host, port and optional credentials.
/// The value is plain data; connecting through it is the caller's business.
#[derive(Debug)]
pub struct Proxy {
    proxy_type: ProxyType,
    host: String,
    port: u16,
    user: Option<String>,
    password: Option<String>,
}

impl Proxy {
    /// The proxy protocol of this configuration.
    pub closed spec fn spec_proxy_type(&self) -> ProxyType {
        self.proxy_type
    }

    /// The host name, as a sequence of characters.
    pub closed spec fn spec_host(&self) -> Seq<char> {
        self.host@
    }

    /// The port number.
    pub closed spec fn spec_port(&self) -> u16 {
        self.port
    }

    /// The optional user name, each as a sequence of characters.
    pub closed spec fn spec_user(&self) -> Option<Seq<char>> {
        self.user.deep_view()
    }

    /// The optional password, each as a sequence of characters.
    pub closed spec fn spec_password(&self) -> Option<Seq<char>> {
        self.password.deep_view()
    }

    /// Bundles the given coordinates into a `Proxy` value.
    pub fn new(
        proxy_type: ProxyType,
        host: String,
        port: u16,
        user: Option<String>,
        password: Option<String>,
    ) -> (r: Proxy)
        ensures
            r.spec_proxy_type() == proxy_type,
            r.spec_host() == host@,
            r.spec_port() == port,
            r.spec_user() == user.deep_view(),
            r.spec_password() == password.deep_view(),
    {
        Proxy { proxy_type, host, port, user, password }
    }

    /// Returns the proxy type.
    pub fn get_proxy_type(&self) -> (r: &ProxyType)
        ensures
            r == self.spec_proxy_type(),
    {
        &self.proxy_type
    }

    /// Returns the proxy host.
    pub fn get_host(&self) -> (r: &str)
        ensures
            r@ == self.spec_host(),
    {
        self.host.as_str()
    }

    /// Returns the proxy port.
    pub fn get_port(&self) -> (r: u16)
        ensures
            r == self.spec_port(),
    {
        self.port
    }

    /// Returns the user name used to validate against the proxy, if any.
    pub fn get_user(&self) -> (r: Option<&String>)
        ensures
            r.deep_view() == self.spec_user(),
    {
        self.user.as_ref()
    }

    /// Returns the password used to validate against the proxy, if any.
    pub fn get_password(&self) -> (r: Option<&String>)
        ensures
            r.deep_view() == self.spec_password(),
    {
        self.password.as_ref()
    }
}

} // verus!
