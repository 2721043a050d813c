//! Socket addresses, as plain values. The network calls that use them are
//! made outside the library, which converts these to and from the
//! platform's own address types.

use vstd::prelude::*;

verus! {

/// An IP address.
#[derive(Debug, Copy, Clone, PartialEq, Eq, Structural)]
pub enum IpAddr {
    /// Four octets, most significant first.
    V4(u8, u8, u8, u8),
    /// Eight 16-bit segments, most significant first.
    V6(u16, u16, u16, u16, u16, u16, u16, u16),
}

/// An IP address and a port.
#[derive(Debug, Copy, Clone, PartialEq, Eq, Structural)]
pub struct SocketAddr {
    pub ip: IpAddr,
    pub port: u16,
}

impl SocketAddr {
    /// An IPv4 socket address.
    pub fn v4(a: u8, b: u8, c: u8, d: u8, port: u16) -> (r: SocketAddr)
        ensures
            r == (SocketAddr { ip: IpAddr::V4(a, b, c, d), port }),
    {
        SocketAddr { ip: IpAddr::V4(a, b, c, d), port }
    }
}

} // verus!
