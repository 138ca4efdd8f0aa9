//! IP addresses as the protocol logic sees them: plain integers that identify
//! a peer. Sockets and the conversion from the operating system's address
//! types live outside the library.

use vstd::prelude::*;

verus! {

/// An IPv4 or IPv6 address, held as its big-endian integer value.
#[derive(Debug, Clone, Copy, PartialEq, Eq, Hash, Structural)]
pub enum IpAddr {
    /// An IPv4 address; `0xC0A8_0101` is 192.168.1.1.
    V4(u32),
    /// An IPv6 address as a 128-bit integer.
    V6(u128),
}

impl IpAddr {
    /// The IPv4 address with the four given octets.
    pub fn v4(a: u8, b: u8, c: u8, d: u8) -> (ip: IpAddr)
        ensures
            ip == IpAddr::V4((a * 0x100_0000 + b * 0x1_0000 + c * 0x100 + d) as u32),
    {
        IpAddr::V4(
            (a as u32) * 0x100_0000 + (b as u32) * 0x1_0000 + (c as u32) * 0x100 + (d as u32),
        )
    }

    /// The unspecified IPv4 address 0.0.0.0.
    pub fn unspecified_v4() -> (ip: IpAddr)
        ensures
            ip == IpAddr::V4(0),
    {
        IpAddr::V4(0)
    }
}

/// An IPv4 address held as its big-endian integer value.
#[derive(Debug, Clone, Copy, PartialEq, Eq, Hash, Structural)]
pub struct Ipv4Addr(pub u32);

impl Ipv4Addr {
    /// The address with the four given octets.
    pub fn new(a: u8, b: u8, c: u8, d: u8) -> (ip: Ipv4Addr)
        ensures
            ip == Ipv4Addr((a * 0x100_0000 + b * 0x1_0000 + c * 0x100 + d) as u32),
    {
        Ipv4Addr(
            (a as u32) * 0x100_0000 + (b as u32) * 0x1_0000 + (c as u32) * 0x100 + (d as u32),
        )
    }
}

} // verus!
