//! Network addresses as plain values.
use vstd::prelude::*;

verus! {

/// An IP address: the 32 bits of an IPv4 address or the 128 bits of an IPv6
/// address, held in one integer, with the family beside it.
#[derive(Debug, Clone, Copy, PartialEq, Eq, Structural, Hash, PartialOrd, Ord)]
pub struct IpAddress {
    pub bits: u128,
    pub is_v6: bool,
}

/// A socket address: an IP address and a port.
#[derive(Debug, Clone, Copy, PartialEq, Eq, Structural, Hash, PartialOrd, Ord)]
pub struct SocketAddress {
    pub ip: IpAddress,
    pub port: u16,
}

impl IpAddress {
    /// The IPv4 address `a.b.c.d`.
    pub fn v4(a: u8, b: u8, c: u8, d: u8) -> (r: IpAddress)
        ensures
            r.bits == a as int * 0x1000000 + b as int * 0x10000 + c as int * 0x100 + d as int,
            !r.is_v6,
    {
        let bits: u128 = (a as u128) * 0x1000000 + (b as u128) * 0x10000 + (c as u128) * 0x100
            + (d as u128);
        IpAddress { bits, is_v6: false }
    }
}

/// The address is the unspecified one: `0.0.0.0` or `::`.
pub open spec fn is_unspecified_ip(ip: IpAddress) -> bool {
    ip.bits == 0
}

/// The address is a loopback address: `127.0.0.0/8` or `::1`.
pub open spec fn is_loopback_ip(ip: IpAddress) -> bool {
    if ip.is_v6 {
        ip.bits == 1
    } else {
        ip.bits / 0x1000000 == 127
    }
}

impl IpAddress {
    /// Whether this is the unspecified address.
    pub fn is_unspecified(&self) -> (r: bool)
        ensures
            r == is_unspecified_ip(*self),
    {
        self.bits == 0
    }

    /// Whether this is a loopback address.
    pub fn is_loopback(&self) -> (r: bool)
        ensures
            r == is_loopback_ip(*self),
    {
        if self.is_v6 {
            self.bits == 1
        } else {
            self.bits / 0x1000000 == 127
        }
    }
}

impl SocketAddress {
    /// The socket address of `ip` and `port`.
    pub fn new(ip: IpAddress, port: u16) -> (r: SocketAddress)
        ensures
            r.ip == ip,
            r.port == port,
    {
        SocketAddress { ip, port }
    }
}

/// A peer's identity, held as the bytes of its multihash.
#[derive(Debug, Clone, PartialEq, Eq, Hash)]
pub struct PeerId {
    bytes: Vec<u8>,
}

impl View for PeerId {
    type V = Seq<u8>;

    closed spec fn view(&self) -> Seq<u8> {
        self.bytes@
    }
}

impl PeerId {
    /// The peer id with the given bytes.
    pub fn from_bytes(bytes: Vec<u8>) -> (r: PeerId)
        ensures
            r@ == bytes@,
    {
        PeerId { bytes }
    }

    /// The bytes of the peer id.
    pub fn to_bytes(&self) -> (r: Vec<u8>)
        ensures
            r@ == self@,
    {
        crate::encoding::copy_bytes(&self.bytes)
    }

    /// Whether two peer ids are equal.
    pub fn same_as(&self, other: &PeerId) -> (r: bool)
        ensures
            r == (self@ == other@),
    {
        crate::encoding::bytes_equal(self.bytes.as_slice(), other.bytes.as_slice())
    }

    /// A copy of the peer id.
    pub fn duplicate(&self) -> (r: PeerId)
        ensures
            r@ == self@,
    {
        PeerId { bytes: crate::encoding::copy_bytes(&self.bytes) }
    }
}

} // verus!
