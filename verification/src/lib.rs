//! CIDR arithmetic over 32-bit IPv4 addresses: conversions between a
//! dotted-quad subnet mask, a CIDR prefix length, and the inclusive
//! start/end address range that a prefix denotes.

pub mod address;
pub mod cidr;
pub mod mask;

pub use crate::address::Ipv4Address;
pub use crate::cidr::Cidr;
pub use crate::cidr::CidrError;
pub use crate::cidr::CidrPrefix;
pub use crate::mask::count_ones;
pub use crate::mask::lemma_prefix_len_round_trip;
pub use crate::mask::subnet_mask_of;
