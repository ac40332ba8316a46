use vstd::prelude::*;

pub mod ascii;
pub mod auth;
pub mod connector;
pub mod error;
pub mod forward;
pub mod framer;
pub mod head;
pub mod respond;
pub mod route;

pub use error::Error;

verus! {

/// One configured credential pair. Duplicates are allowed and behave
/// as independent valid credentials.
#[derive(Clone, Debug)]
pub struct User {
    pub login: String,
    pub pass: String,
}

/// An IPv4 source address to bind outbound sockets to, as its four octets.
#[derive(Clone, Copy, Debug)]
pub struct Ipv4Octets {
    pub octets: [u8; 4],
}

/// An IPv6 source address to bind outbound sockets to, as its sixteen octets.
#[derive(Clone, Copy, Debug)]
pub struct Ipv6Octets {
    pub octets: [u8; 16],
}

/// The immutable per-process configuration: the authorized users (an
/// empty list disables authorization), the optional source-bind
/// addresses, the Nagle-disable flag for accepted sockets, and the
/// optional overall connect deadline in milliseconds.
#[derive(Clone, Debug)]
pub struct Proxy {
    pub users: Vec<User>,
    pub bind_ipv4: Option<Ipv4Octets>,
    pub bind_ipv6: Option<Ipv6Octets>,
    pub nodelay: bool,
    pub connect_timeout_ms: Option<u64>,
}

impl Default for Proxy {
    /// An open proxy: no users, no binds, Nagle left on, no deadline.
    fn default() -> (r: Proxy)
        ensures
            r.users@ == Seq::<User>::empty(),
            r.bind_ipv4 is None,
            r.bind_ipv6 is None,
            !r.nodelay,
            r.connect_timeout_ms is None,
    {
        Proxy {
            users: Vec::new(),
            bind_ipv4: None,
            bind_ipv6: None,
            nodelay: false,
            connect_timeout_ms: None,
        }
    }
}

impl Proxy {
    /// Appends one credential pair to the authorized users.
    pub fn add_user(self, user: String, pass: String) -> (r: Proxy)
        ensures
            r.users@ == self.users@.push(User { login: user, pass: pass }),
            r.bind_ipv4 == self.bind_ipv4,
            r.bind_ipv6 == self.bind_ipv6,
            r.nodelay == self.nodelay,
            r.connect_timeout_ms == self.connect_timeout_ms,
    {
        let mut p = self;
        p.users.push(User { login: user, pass: pass });
        p
    }

    /// Sets the IPv4 source address for bound outbound connections.
    pub fn set_bind_ipv4(self, addr: Ipv4Octets) -> (r: Proxy)
        ensures
            r.bind_ipv4 == Some(addr),
            r.users@ == self.users@,
            r.bind_ipv6 == self.bind_ipv6,
            r.nodelay == self.nodelay,
            r.connect_timeout_ms == self.connect_timeout_ms,
    {
        let mut p = self;
        p.bind_ipv4 = Some(addr);
        p
    }

    /// Sets the IPv6 source address for bound outbound connections.
    pub fn set_bind_ipv6(self, addr: Ipv6Octets) -> (r: Proxy)
        ensures
            r.bind_ipv6 == Some(addr),
            r.users@ == self.users@,
            r.bind_ipv4 == self.bind_ipv4,
            r.nodelay == self.nodelay,
            r.connect_timeout_ms == self.connect_timeout_ms,
    {
        let mut p = self;
        p.bind_ipv6 = Some(addr);
        p
    }

    /// Sets whether Nagle's algorithm is disabled on accepted sockets.
    pub fn set_nodelay(self, nodelay: bool) -> (r: Proxy)
        ensures
            r.nodelay == nodelay,
            r.users@ == self.users@,
            r.bind_ipv4 == self.bind_ipv4,
            r.bind_ipv6 == self.bind_ipv6,
            r.connect_timeout_ms == self.connect_timeout_ms,
    {
        let mut p = self;
        p.nodelay = nodelay;
        p
    }
}

} // verus!
