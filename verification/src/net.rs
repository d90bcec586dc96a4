use vstd::prelude::*;

verus! {

/// An IP address: four octets for IPv4, the 128-bit value for IPv6.
#[derive(Clone, Copy, Debug, PartialEq, Eq, Hash, Structural)]
pub enum IpAddr {
    V4(u8, u8, u8, u8),
    V6(u128),
}

/// A socket address: an IP address and a port.
#[derive(Clone, Copy, Debug, PartialEq, Eq, Hash, Structural)]
pub struct SocketAddr {
    pub ip: IpAddr,
    pub port: u16,
}

impl IpAddr {
    pub fn is_ipv4(&self) -> (r: bool)
        ensures
            r == (*self is V4),
    {
        match self {
            IpAddr::V4(..) => true,
            IpAddr::V6(..) => false,
        }
    }
}

impl SocketAddr {
    pub fn new(ip: IpAddr, port: u16) -> (r: SocketAddr)
        ensures
            r.ip == ip,
            r.port == port,
    {
        SocketAddr { ip, port }
    }

    /// An IPv4 socket address from its four octets and a port.
    pub fn v4(a: u8, b: u8, c: u8, d: u8, port: u16) -> (r: SocketAddr)
        ensures
            r.ip == IpAddr::V4(a, b, c, d),
            r.port == port,
    {
        SocketAddr { ip: IpAddr::V4(a, b, c, d), port }
    }
}

} // verus!
