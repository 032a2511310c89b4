//! The CIDR conversions: subnet mask to prefix length, base address and
//! prefix length to inclusive address range, and prefix length to subnet
//! mask. Prefix lengths outside `[0, 32]` are rejected rather than fed to
//! an out-of-range shift.

use crate::address::Ipv4Address;
use crate::mask::{count_ones, lemma_count_ones_u32_le_32, subnet_mask_of};
use vstd::prelude::*;

verus! {

/// The one failure this library reports: a prefix length outside `[0, 32]`
/// was passed to a mask or range derivation.
#[derive(Clone, Copy, Debug, PartialEq, Eq, Structural)]
pub enum CidrError {
    InvalidPrefixLength,
}

/// Conversions that start from an address: reading a subnet mask's prefix
/// length, and deriving the address range of `address/prefix_len`.
pub trait Cidr {
    /// The 32-bit value of the address the conversion starts from.
    spec fn addr_bits(&self) -> u32;

    /// Counts the set bits of the address, read as a subnet mask. For a
    /// contiguous mask this is the CIDR prefix length; a non-contiguous
    /// pattern yields its raw population count rather than an error.
    fn to_prefix_len(&self) -> (r: u32)
        ensures
            r as nat == count_ones(self.addr_bits() as nat),
            r <= 32,
    ;

    /// The inclusive `(start, end)` range of the subnet `self/prefix_len`.
    /// The base address is normalized down to its network address, so it
    /// need not already have its host bits clear.
    fn ip_range(&self, prefix_len: u32) -> (r: Result<(Ipv4Address, Ipv4Address), CidrError>)
        ensures
            prefix_len <= 32 ==> (r matches Ok(range)
                && range.0.bits == (self.addr_bits() & subnet_mask_of(prefix_len))
                && range.1.bits == (range.0.bits | !subnet_mask_of(prefix_len))
                && range.0.bits <= range.1.bits),
            prefix_len == 32 ==> (r matches Ok(range)
                && range.0.bits == self.addr_bits()
                && range.1.bits == self.addr_bits()),
            prefix_len == 0 ==> (r matches Ok(range)
                && range.0.bits == 0
                && range.1.bits == 0xFFFFFFFFu32),
            prefix_len > 32 ==> r == Err::<(Ipv4Address, Ipv4Address), CidrError>(
                CidrError::InvalidPrefixLength,
            ),
    ;
}

impl Cidr for u32 {
    open spec fn addr_bits(&self) -> u32 {
        *self
    }

    fn to_prefix_len(&self) -> (r: u32) {
        let ghost orig: u32 = *self;
        let mut n: u32 = *self;
        let mut i: u32 = 0;
        proof {
            lemma_count_ones_u32_le_32(orig);
        }
        while n > 0
            invariant
                i as nat + count_ones(n as nat) == count_ones(orig as nat),
                count_ones(orig as nat) <= 32,
            decreases n,
        {
            proof {
                assert((n & 1u32) == n % 2) by (bit_vector);
                assert((n >> 1u32) == n / 2) by (bit_vector);
            }
            if n & 1 != 0 {
                i = i + 1;
            }
            n = n >> 1;
        }
        i
    }

    fn ip_range(&self, prefix_len: u32) -> (r: Result<(Ipv4Address, Ipv4Address), CidrError>) {
        if prefix_len > 32 {
            return Err(CidrError::InvalidPrefixLength);
        }
        let mask: u32 = if prefix_len == 32 {
            0xFFFFFFFFu32
        } else {
            !(0xFFFFFFFFu32 >> prefix_len)
        };
        let n: u32 = *self;
        let start: u32 = n & mask;
        let end: u32 = start | !mask;
        proof {
            assert((n & mask) <= ((n & mask) | !mask)) by (bit_vector);
            if prefix_len == 32 {
                assert((n & 0xFFFFFFFFu32) == n && ((n & 0xFFFFFFFFu32) | !0xFFFFFFFFu32) == n)
                    by (bit_vector);
            }
            if prefix_len == 0 {
                assert(!(0xFFFFFFFFu32 >> 0u32) == 0u32) by (bit_vector);
                assert((n & 0u32) == 0u32 && ((n & 0u32) | !0u32) == 0xFFFFFFFFu32) by (bit_vector);
            }
        }
        Ok((Ipv4Address { bits: start }, Ipv4Address { bits: end }))
    }
}

impl Cidr for Ipv4Address {
    open spec fn addr_bits(&self) -> u32 {
        self.bits
    }

    fn to_prefix_len(&self) -> (r: u32) {
        self.bits.to_prefix_len()
    }

    fn ip_range(&self, prefix_len: u32) -> (r: Result<(Ipv4Address, Ipv4Address), CidrError>) {
        self.bits.ip_range(prefix_len)
    }
}

/// The conversion that starts from a prefix length: deriving the subnet
/// mask whose top `self` bits are set.
pub trait CidrPrefix {
    /// The prefix-length value the conversion starts from.
    spec fn prefix_value(&self) -> u32;

    /// The subnet mask that this prefix length denotes, or
    /// `InvalidPrefixLength` when the value lies outside `[0, 32]`.
    fn to_subnet_mask(&self) -> (r: Result<Ipv4Address, CidrError>)
        ensures
            self.prefix_value() <= 32 ==> (r matches Ok(m)
                && m.bits == subnet_mask_of(self.prefix_value())),
            self.prefix_value() > 32 ==> r == Err::<Ipv4Address, CidrError>(
                CidrError::InvalidPrefixLength,
            ),
    ;
}

impl CidrPrefix for u32 {
    open spec fn prefix_value(&self) -> u32 {
        *self
    }

    fn to_subnet_mask(&self) -> (r: Result<Ipv4Address, CidrError>) {
        let p: u32 = *self;
        if p > 32 {
            return Err(CidrError::InvalidPrefixLength);
        }
        let mask: u32 = if p == 32 {
            0xFFFFFFFFu32
        } else {
            !(0xFFFFFFFFu32 >> p)
        };
        Ok(Ipv4Address { bits: mask })
    }
}

} // verus!
