//! The value type for IPv4 addresses: a 32-bit word in network order,
//! most significant octet first.

use vstd::prelude::*;

verus! {

/// An IPv4 address held as its 32-bit value. The first dotted-quad octet
/// occupies the most significant byte.
#[derive(Clone, Copy, Debug, PartialEq, Eq, Structural)]
pub struct Ipv4Address {
    pub bits: u32,
}

impl Ipv4Address {
    /// Builds an address from its four dotted-quad octets, first octet first.
    pub fn new(a: u8, b: u8, c: u8, d: u8) -> (r: Ipv4Address)
        ensures
            r.bits == a as int * 0x1000000 + b as int * 0x10000 + c as int * 0x100 + d as int,
    {
        Ipv4Address {
            bits: a as u32 * 0x1000000 + b as u32 * 0x10000 + c as u32 * 0x100 + d as u32,
        }
    }

    /// Builds an address directly from its 32-bit value.
    pub fn from_bits(bits: u32) -> (r: Ipv4Address)
        ensures
            r.bits == bits,
    {
        Ipv4Address { bits }
    }

    /// The four dotted-quad octets, most significant first.
    pub fn octets(&self) -> (r: (u8, u8, u8, u8))
        ensures
            r.0 == self.bits / 0x1000000,
            r.1 == (self.bits / 0x10000) % 0x100,
            r.2 == (self.bits / 0x100) % 0x100,
            r.3 == self.bits % 0x100,
    {
        (
            (self.bits / 0x1000000) as u8,
            ((self.bits / 0x10000) % 0x100) as u8,
            ((self.bits / 0x100) % 0x100) as u8,
            (self.bits % 0x100) as u8,
        )
    }
}

} // verus!
