use cidr_arith::{Cidr, CidrError, CidrPrefix, Ipv4Address};

#[test]
fn test() {
    assert_eq!(24, Ipv4Address::new(255, 255, 255, 0).to_prefix_len());
    assert_eq!(
        (Ipv4Address::new(10, 0, 0, 0), Ipv4Address::new(10, 0, 0, 255)),
        Ipv4Address::new(10, 0, 0, 0).ip_range(24).unwrap()
    );
    assert_eq!(
        24u32.to_subnet_mask().unwrap(),
        Ipv4Address::new(255, 255, 255, 0)
    );
    assert_eq!(
        1u32.to_subnet_mask().unwrap(),
        Ipv4Address::new(128, 0, 0, 0)
    );
}

#[test]
fn round_trip_over_every_prefix_length() {
    for p in 0u32..=32 {
        let mask = p.to_subnet_mask().unwrap();
        assert_eq!(p, mask.to_prefix_len());
    }
}

#[test]
fn range_matches_mask_arithmetic() {
    let bases = [0u32, 1, 0x0A000000, 0xC0A80182, 0xFFFFFFFF, 0x12345678];
    for p in 0u32..=32 {
        let mask = p.to_subnet_mask().unwrap().bits;
        for &base in bases.iter() {
            let (start, end) = base.ip_range(p).unwrap();
            assert_eq!(start.bits, base & mask);
            assert_eq!(end.bits, start.bits | !mask);
            assert!(start.bits <= end.bits);
        }
    }
}

#[test]
fn full_prefix_range_is_the_address_itself() {
    let a = Ipv4Address::new(192, 168, 1, 130);
    let (start, end) = a.ip_range(32).unwrap();
    assert_eq!(start, a);
    assert_eq!(end, a);
    let (start, end) = 0xDEADBEEFu32.ip_range(32).unwrap();
    assert_eq!(start.bits, 0xDEADBEEF);
    assert_eq!(end.bits, 0xDEADBEEF);
}

#[test]
fn zero_prefix_range_spans_everything() {
    let (start, end) = Ipv4Address::new(172, 16, 99, 7).ip_range(0).unwrap();
    assert_eq!(start, Ipv4Address::new(0, 0, 0, 0));
    assert_eq!(end, Ipv4Address::new(255, 255, 255, 255));
}

#[test]
fn out_of_range_prefix_length_is_rejected() {
    assert_eq!(
        33u32.to_subnet_mask(),
        Err(CidrError::InvalidPrefixLength)
    );
    assert_eq!(
        u32::MAX.to_subnet_mask(),
        Err(CidrError::InvalidPrefixLength)
    );
    assert_eq!(
        Ipv4Address::new(10, 0, 0, 0).ip_range(33),
        Err(CidrError::InvalidPrefixLength)
    );
    assert_eq!(
        0u32.ip_range(100),
        Err(CidrError::InvalidPrefixLength)
    );
}

#[test]
fn base_address_is_normalized_to_the_network_address() {
    let (start, end) = Ipv4Address::new(192, 168, 1, 130).ip_range(25).unwrap();
    assert_eq!(start, Ipv4Address::new(192, 168, 1, 128));
    assert_eq!(end, Ipv4Address::new(192, 168, 1, 255));
}

#[test]
fn non_contiguous_mask_yields_its_population_count() {
    assert_eq!(16, Ipv4Address::new(255, 0, 255, 0).to_prefix_len());
}

#[test]
fn prefix_len_of_degenerate_masks() {
    assert_eq!(0, Ipv4Address::new(0, 0, 0, 0).to_prefix_len());
    assert_eq!(32, Ipv4Address::new(255, 255, 255, 255).to_prefix_len());
    assert_eq!(0, 0u32.to_prefix_len());
    assert_eq!(32, 0xFFFFFFFFu32.to_prefix_len());
    assert_eq!(24, 0xFFFFFF00u32.to_prefix_len());
}

#[test]
fn degenerate_subnet_masks() {
    assert_eq!(0u32.to_subnet_mask().unwrap(), Ipv4Address::new(0, 0, 0, 0));
    assert_eq!(
        32u32.to_subnet_mask().unwrap(),
        Ipv4Address::new(255, 255, 255, 255)
    );
}

#[test]
fn address_construction_and_octets() {
    let a = Ipv4Address::new(192, 168, 1, 130);
    assert_eq!(a.bits, 0xC0A80182);
    assert_eq!(a.octets(), (192, 168, 1, 130));
    assert_eq!(Ipv4Address::from_bits(0xC0A80182), a);
    let b = Ipv4Address::from_bits(0);
    assert_eq!(b.octets(), (0, 0, 0, 0));
    let c = Ipv4Address::new(255, 255, 255, 255);
    assert_eq!(c.bits, u32::MAX);
}
