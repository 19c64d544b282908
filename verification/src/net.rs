//! Addresses of datagrams.

use vstd::prelude::*;

verus! {

/// Where a datagram comes from or goes to.
#[derive(Debug, Clone, Copy, PartialEq, Eq, Structural)]
#[allow(inconsistent_fields)]
pub enum SocketAddr {
    /// An IPv4 address, as a number, and a port.
    V4 {
        ip: u32,
        port: u16,
    },
    /// An IPv6 address, as a number, and a port.
    V6 {
        ip: u128,
        port: u16,
        flowinfo: u32,
        scope_id: u32,
    },
}

impl SocketAddr {
    /// The address of a port of an IPv4 host.
    pub fn v4(a: u8, b: u8, c: u8, d: u8, port: u16) -> (addr: SocketAddr)
        ensures
            addr == (SocketAddr::V4 {
                ip: (a * 0x100_0000 + b * 0x1_0000 + c * 0x100 + d) as u32,
                port,
            }),
    {
        SocketAddr::V4 {
            ip: a as u32 * 0x100_0000 + b as u32 * 0x1_0000 + c as u32 * 0x100 + d as u32,
            port,
        }
    }
}

} // verus!
