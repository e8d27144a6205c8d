use smoltcp_wire::error::Error;
use smoltcp_wire::ipv4::{Address, Cidr, Packet, Protocol, Repr};
use smoltcp_wire::phy::ChecksumCapabilities;

fn mock_ip_addr_1() -> Address {
    Address::new(192, 168, 1, 1)
}

fn mock_ip_addr_2() -> Address {
    Address::new(192, 168, 1, 2)
}

static PACKET_BYTES: [u8; 30] = [
    0x45, 0x00, 0x00, 0x1e, 0x01, 0x02, 0x62, 0x03, 0x1a, 0x01, 0xd5, 0x6e, 0x11, 0x12, 0x13,
    0x14, 0x21, 0x22, 0x23, 0x24, 0xaa, 0x00, 0x00, 0x00, 0x00, 0x00, 0x00, 0x00, 0x00, 0xff,
];

static PAYLOAD_BYTES: [u8; 10] = [0xaa, 0x00, 0x00, 0x00, 0x00, 0x00, 0x00, 0x00, 0x00, 0xff];

#[test]
fn ipv4_ghost_fields_are_not_observable() {
    let packet = Packet::new_unchecked(&PACKET_BYTES[..]);
    let s = format!("{packet:?}");
    assert!(!s.contains("Ghost"), "ghost leaked into Debug: {s}");
    assert!(s.starts_with("Packet { buffer: "), "Debug shape changed: {s}");
}

#[test]
fn test_header_writes_preserve_ghosts() {
    let mut bytes = vec![0; 30];
    let mut packet = Packet::new_unchecked(&mut bytes);
    packet.set_header_len(20);
    packet.set_total_len(30);

    packet.set_version(4);
    assert_eq!(packet.header_len(), 20, "set_version(4): header_len");
    assert_eq!(packet.total_len(), 30, "set_version(4): total_len");
    packet.set_version(6);
    assert_eq!(packet.header_len(), 20, "set_version(6): header_len");
    assert_eq!(packet.total_len(), 30, "set_version(6): total_len");
    packet.set_version(15);
    assert_eq!(packet.header_len(), 20, "set_version(15): header_len");
    assert_eq!(packet.total_len(), 30, "set_version(15): total_len");
    packet.set_dscp(0x3f);
    assert_eq!(packet.header_len(), 20, "set_dscp: header_len");
    assert_eq!(packet.total_len(), 30, "set_dscp: total_len");
    packet.set_ecn(0x3);
    assert_eq!(packet.header_len(), 20, "set_ecn: header_len");
    assert_eq!(packet.total_len(), 30, "set_ecn: total_len");
    packet.set_ident(0xffff);
    assert_eq!(packet.header_len(), 20, "set_ident: header_len");
    assert_eq!(packet.total_len(), 30, "set_ident: total_len");
    packet.clear_flags();
    assert_eq!(packet.header_len(), 20, "clear_flags: header_len");
    assert_eq!(packet.total_len(), 30, "clear_flags: total_len");
    packet.set_dont_frag(true);
    assert_eq!(packet.header_len(), 20, "set_dont_frag: header_len");
    assert_eq!(packet.total_len(), 30, "set_dont_frag: total_len");
    packet.set_more_frags(true);
    assert_eq!(packet.header_len(), 20, "set_more_frags: header_len");
    assert_eq!(packet.total_len(), 30, "set_more_frags: total_len");
    packet.set_frag_offset(0xfff8);
    assert_eq!(packet.header_len(), 20, "set_frag_offset: header_len");
    assert_eq!(packet.total_len(), 30, "set_frag_offset: total_len");
    packet.set_hop_limit(0xff);
    assert_eq!(packet.header_len(), 20, "set_hop_limit: header_len");
    assert_eq!(packet.total_len(), 30, "set_hop_limit: total_len");
    packet.set_next_header(Protocol::Tcp);
    assert_eq!(packet.header_len(), 20, "set_next_header: header_len");
    assert_eq!(packet.total_len(), 30, "set_next_header: total_len");
    packet.set_checksum(0xffff);
    assert_eq!(packet.header_len(), 20, "set_checksum: header_len");
    assert_eq!(packet.total_len(), 30, "set_checksum: total_len");
    packet.set_src_addr(mock_ip_addr_1());
    assert_eq!(packet.header_len(), 20, "set_src_addr: header_len");
    assert_eq!(packet.total_len(), 30, "set_src_addr: total_len");
    packet.set_dst_addr(mock_ip_addr_2());
    assert_eq!(packet.header_len(), 20, "set_dst_addr: header_len");
    assert_eq!(packet.total_len(), 30, "set_dst_addr: total_len");
    packet.fill_checksum();
    assert_eq!(packet.header_len(), 20, "fill_checksum: header_len");
    assert_eq!(packet.total_len(), 30, "fill_checksum: total_len");
    packet.fill_checksum_with_header_len(20);
    assert_eq!(packet.header_len(), 20, "fill_checksum_with_header_len: header_len");
    assert_eq!(packet.total_len(), 30, "fill_checksum_with_header_len: total_len");

    for b in packet.payload_mut() {
        *b = 0xff;
    }
    assert_eq!(packet.header_len(), 20, "payload_mut: header_len");
    assert_eq!(packet.total_len(), 30, "payload_mut: total_len");
}

#[test]
fn test_set_header_len_truncates() {
    let mut bytes = vec![0; 30];
    let mut packet = Packet::new_unchecked(&mut bytes);
    for value in 0u8..=60 {
        packet.set_header_len(value);
        assert_eq!(packet.header_len(), (value / 4) * 4, "set_header_len({value})");
    }
}

#[test]
fn ipv4_test_deconstruct() {
    let packet = Packet::new_unchecked(&PACKET_BYTES[..]);
    assert_eq!(packet.version(), 4);
    assert_eq!(packet.header_len(), 20);
    assert_eq!(packet.dscp(), 0);
    assert_eq!(packet.ecn(), 0);
    assert_eq!(packet.total_len(), 30);
    assert_eq!(packet.ident(), 0x102);
    assert!(packet.more_frags());
    assert!(packet.dont_frag());
    assert_eq!(packet.frag_offset(), 0x203 * 8);
    assert_eq!(packet.hop_limit(), 0x1a);
    assert_eq!(packet.next_header(), Protocol::Icmp);
    assert_eq!(packet.checksum(), 0xd56e);
    assert_eq!(packet.src_addr(), Address::new(0x11, 0x12, 0x13, 0x14));
    assert_eq!(packet.dst_addr(), Address::new(0x21, 0x22, 0x23, 0x24));
    assert!(packet.verify_checksum());
    assert_eq!(packet.payload(), &PAYLOAD_BYTES[..]);
}

#[test]
fn ipv4_test_construct() {
    let mut bytes = vec![0xa5; 30];
    let mut packet = Packet::new_unchecked(&mut bytes);
    packet.set_version(4);
    packet.set_header_len(20);
    packet.clear_flags();
    packet.set_dscp(0);
    packet.set_ecn(0);
    packet.set_total_len(30);
    packet.set_ident(0x102);
    packet.set_more_frags(true);
    packet.set_dont_frag(true);
    packet.set_frag_offset(0x203 * 8);
    packet.set_hop_limit(0x1a);
    packet.set_next_header(Protocol::Icmp);
    packet.set_src_addr(Address::new(0x11, 0x12, 0x13, 0x14));
    packet.set_dst_addr(Address::new(0x21, 0x22, 0x23, 0x24));
    packet.fill_checksum();
    packet.payload_mut().copy_from_slice(&PAYLOAD_BYTES[..]);
    assert_eq!(&*packet.into_inner(), &PACKET_BYTES[..]);
}

#[test]
fn ipv4_test_overlong() {
    let mut bytes = vec![];
    bytes.extend(&PACKET_BYTES[..]);
    bytes.push(0);

    assert_eq!(
        Packet::new_unchecked(&bytes).payload().len(),
        PAYLOAD_BYTES.len()
    );
    assert_eq!(
        Packet::new_unchecked(&mut bytes).payload_mut().len(),
        PAYLOAD_BYTES.len()
    );
}

#[test]
fn test_total_len_overflow() {
    let mut bytes = vec![];
    bytes.extend(&PACKET_BYTES[..]);
    Packet::new_unchecked(&mut bytes).set_total_len(128);

    assert_eq!(Packet::new_checked(&bytes).unwrap_err(), Error);
}

static REPR_PACKET_BYTES: [u8; 24] = [
    0x45, 0x00, 0x00, 0x18, 0x00, 0x00, 0x40, 0x00, 0x40, 0x01, 0xd2, 0x79, 0x11, 0x12, 0x13,
    0x14, 0x21, 0x22, 0x23, 0x24, 0xaa, 0x00, 0x00, 0xff,
];

static REPR_PAYLOAD_BYTES: [u8; 4] = [0xaa, 0x00, 0x00, 0xff];

fn packet_repr() -> Repr {
    Repr {
        src_addr: Address::new(0x11, 0x12, 0x13, 0x14),
        dst_addr: Address::new(0x21, 0x22, 0x23, 0x24),
        next_header: Protocol::Icmp,
        payload_len: 4,
        hop_limit: 64,
    }
}

#[test]
fn ipv4_test_parse() {
    let packet = Packet::new_unchecked(&REPR_PACKET_BYTES[..]);
    let repr = Repr::parse(&packet, &ChecksumCapabilities::default()).unwrap();
    assert_eq!(repr, packet_repr());
}

#[test]
fn test_parse_bad_version() {
    let mut bytes = vec![0; 24];
    bytes.copy_from_slice(&REPR_PACKET_BYTES[..]);
    let mut packet = Packet::new_unchecked(&mut bytes);
    packet.set_version(6);
    packet.fill_checksum();
    let packet = Packet::new_unchecked(&*packet.into_inner());
    assert_eq!(
        Repr::parse(&packet, &ChecksumCapabilities::default()),
        Err(Error)
    );
}

#[test]
fn test_parse_total_len_less_than_header_len() {
    let mut bytes = vec![0; 40];
    bytes[0] = 0x09;
    assert_eq!(Packet::new_checked(&mut bytes), Err(Error));
}

#[test]
fn test_parse_small_ihl() {
    let mut bytes = vec![0; 24];
    bytes.copy_from_slice(&REPR_PACKET_BYTES[..]);
    let mut packet = Packet::new_unchecked(&mut bytes);
    packet.set_header_len(16);

    assert_eq!(Packet::new_checked(&mut bytes), Err(Error));
}

#[test]
fn ipv4_test_emit() {
    let repr = packet_repr();
    let mut bytes = vec![0xa5; repr.buffer_len() + REPR_PAYLOAD_BYTES.len()];
    let mut packet = Packet::new_unchecked(&mut bytes);
    repr.emit(&mut packet, &ChecksumCapabilities::default());
    packet.payload_mut().copy_from_slice(&REPR_PAYLOAD_BYTES);
    assert_eq!(&*packet.into_inner(), &REPR_PACKET_BYTES[..]);
}

#[test]
fn test_unspecified() {
    assert!(Address::unspecified().is_unspecified());
    assert!(!Address::unspecified().is_broadcast());
    assert!(!Address::unspecified().is_multicast());
    assert!(!Address::unspecified().is_link_local());
    assert!(!Address::unspecified().is_loopback());
}

#[test]
fn ipv4_test_broadcast() {
    assert!(!Address::broadcast().is_unspecified());
    assert!(Address::broadcast().is_broadcast());
    assert!(!Address::broadcast().is_multicast());
    assert!(!Address::broadcast().is_link_local());
    assert!(!Address::broadcast().is_loopback());
}

#[test]
fn test_cidr() {
    let cidr = Cidr::new(Address::new(192, 168, 1, 10), 24);

    let inside_subnet = [
        [192, 168, 1, 0],
        [192, 168, 1, 1],
        [192, 168, 1, 2],
        [192, 168, 1, 10],
        [192, 168, 1, 127],
        [192, 168, 1, 255],
    ];

    let outside_subnet = [
        [192, 168, 0, 0],
        [127, 0, 0, 1],
        [192, 168, 2, 0],
        [192, 168, 0, 255],
        [0, 0, 0, 0],
        [255, 255, 255, 255],
    ];

    let subnets = [
        ([192, 168, 1, 0], 32),
        ([192, 168, 1, 255], 24),
        ([192, 168, 1, 10], 30),
    ];

    let not_subnets = [
        ([192, 168, 1, 10], 23),
        ([127, 0, 0, 1], 8),
        ([192, 168, 1, 0], 0),
        ([192, 168, 0, 255], 32),
    ];

    for addr in inside_subnet.iter().map(|a| Address::from_octets(*a)) {
        assert!(cidr.contains_addr(&addr));
    }

    for addr in outside_subnet.iter().map(|a| Address::from_octets(*a)) {
        assert!(!cidr.contains_addr(&addr));
    }

    for subnet in subnets
        .iter()
        .map(|&(a, p)| Cidr::new(Address::new(a[0], a[1], a[2], a[3]), p))
    {
        assert!(cidr.contains_subnet(&subnet));
    }

    for subnet in not_subnets
        .iter()
        .map(|&(a, p)| Cidr::new(Address::new(a[0], a[1], a[2], a[3]), p))
    {
        assert!(!cidr.contains_subnet(&subnet));
    }

    let cidr_without_prefix = Cidr::new(cidr.address(), 0);
    assert!(cidr_without_prefix.contains_addr(&Address::new(127, 0, 0, 1)));
}

#[test]
fn test_cidr_from_netmask() {
    assert!(Cidr::from_netmask(Address::new(0, 0, 0, 0), Address::new(1, 0, 2, 0)).is_err());
    assert!(Cidr::from_netmask(Address::new(0, 0, 0, 0), Address::new(0, 0, 0, 0)).is_err());
    assert_eq!(
        Cidr::from_netmask(Address::new(0, 0, 0, 1), Address::new(255, 255, 255, 0)).unwrap(),
        Cidr::new(Address::new(0, 0, 0, 1), 24)
    );
    assert_eq!(
        Cidr::from_netmask(Address::new(192, 168, 0, 1), Address::new(255, 255, 0, 0)).unwrap(),
        Cidr::new(Address::new(192, 168, 0, 1), 16)
    );
    assert_eq!(
        Cidr::from_netmask(Address::new(172, 16, 0, 1), Address::new(255, 240, 0, 0)).unwrap(),
        Cidr::new(Address::new(172, 16, 0, 1), 12)
    );
    assert_eq!(
        Cidr::from_netmask(
            Address::new(255, 255, 255, 1),
            Address::new(255, 255, 255, 0)
        )
        .unwrap(),
        Cidr::new(Address::new(255, 255, 255, 1), 24)
    );
    assert_eq!(
        Cidr::from_netmask(
            Address::new(255, 255, 255, 255),
            Address::new(255, 255, 255, 255)
        )
        .unwrap(),
        Cidr::new(Address::new(255, 255, 255, 255), 32)
    );
}

#[test]
fn test_cidr_netmask() {
    assert_eq!(
        Cidr::new(Address::new(0, 0, 0, 0), 0).netmask(),
        Address::new(0, 0, 0, 0)
    );
    assert_eq!(
        Cidr::new(Address::new(0, 0, 0, 1), 24).netmask(),
        Address::new(255, 255, 255, 0)
    );
    assert_eq!(
        Cidr::new(Address::new(0, 0, 0, 0), 32).netmask(),
        Address::new(255, 255, 255, 255)
    );
    assert_eq!(
        Cidr::new(Address::new(127, 0, 0, 0), 8).netmask(),
        Address::new(255, 0, 0, 0)
    );
    assert_eq!(
        Cidr::new(Address::new(192, 168, 0, 0), 16).netmask(),
        Address::new(255, 255, 0, 0)
    );
    assert_eq!(
        Cidr::new(Address::new(192, 168, 1, 1), 16).netmask(),
        Address::new(255, 255, 0, 0)
    );
    assert_eq!(
        Cidr::new(Address::new(192, 168, 1, 1), 17).netmask(),
        Address::new(255, 255, 128, 0)
    );
    assert_eq!(
        Cidr::new(Address::new(172, 16, 0, 0), 12).netmask(),
        Address::new(255, 240, 0, 0)
    );
    assert_eq!(
        Cidr::new(Address::new(255, 255, 255, 1), 24).netmask(),
        Address::new(255, 255, 255, 0)
    );
    assert_eq!(
        Cidr::new(Address::new(255, 255, 255, 255), 32).netmask(),
        Address::new(255, 255, 255, 255)
    );
}

#[test]
fn test_cidr_broadcast() {
    assert_eq!(
        Cidr::new(Address::new(0, 0, 0, 0), 0).broadcast().unwrap(),
        Address::new(255, 255, 255, 255)
    );
    assert_eq!(
        Cidr::new(Address::new(0, 0, 0, 1), 24).broadcast().unwrap(),
        Address::new(0, 0, 0, 255)
    );
    assert_eq!(Cidr::new(Address::new(0, 0, 0, 0), 32).broadcast(), None);
    assert_eq!(
        Cidr::new(Address::new(127, 0, 0, 0), 8)
            .broadcast()
            .unwrap(),
        Address::new(127, 255, 255, 255)
    );
    assert_eq!(
        Cidr::new(Address::new(192, 168, 0, 0), 16)
            .broadcast()
            .unwrap(),
        Address::new(192, 168, 255, 255)
    );
    assert_eq!(
        Cidr::new(Address::new(192, 168, 1, 1), 16)
            .broadcast()
            .unwrap(),
        Address::new(192, 168, 255, 255)
    );
    assert_eq!(
        Cidr::new(Address::new(192, 168, 1, 1), 17)
            .broadcast()
            .unwrap(),
        Address::new(192, 168, 127, 255)
    );
    assert_eq!(
        Cidr::new(Address::new(172, 16, 0, 1), 12)
            .broadcast()
            .unwrap(),
        Address::new(172, 31, 255, 255)
    );
    assert_eq!(
        Cidr::new(Address::new(255, 255, 255, 1), 24)
            .broadcast()
            .unwrap(),
        Address::new(255, 255, 255, 255)
    );
    assert_eq!(
        Cidr::new(Address::new(255, 255, 255, 254), 31).broadcast(),
        None
    );
    assert_eq!(
        Cidr::new(Address::new(255, 255, 255, 255), 32).broadcast(),
        None
    );
}

#[test]
fn test_cidr_network() {
    assert_eq!(
        Cidr::new(Address::new(0, 0, 0, 0), 0).network(),
        Cidr::new(Address::new(0, 0, 0, 0), 0)
    );
    assert_eq!(
        Cidr::new(Address::new(0, 0, 0, 1), 24).network(),
        Cidr::new(Address::new(0, 0, 0, 0), 24)
    );
    assert_eq!(
        Cidr::new(Address::new(0, 0, 0, 0), 32).network(),
        Cidr::new(Address::new(0, 0, 0, 0), 32)
    );
    assert_eq!(
        Cidr::new(Address::new(127, 0, 0, 0), 8).network(),
        Cidr::new(Address::new(127, 0, 0, 0), 8)
    );
    assert_eq!(
        Cidr::new(Address::new(192, 168, 0, 0), 16).network(),
        Cidr::new(Address::new(192, 168, 0, 0), 16)
    );
    assert_eq!(
        Cidr::new(Address::new(192, 168, 1, 1), 16).network(),
        Cidr::new(Address::new(192, 168, 0, 0), 16)
    );
    assert_eq!(
        Cidr::new(Address::new(192, 168, 1, 1), 17).network(),
        Cidr::new(Address::new(192, 168, 0, 0), 17)
    );
    assert_eq!(
        Cidr::new(Address::new(172, 16, 0, 1), 12).network(),
        Cidr::new(Address::new(172, 16, 0, 0), 12)
    );
    assert_eq!(
        Cidr::new(Address::new(255, 255, 255, 1), 24).network(),
        Cidr::new(Address::new(255, 255, 255, 0), 24)
    );
    assert_eq!(
        Cidr::new(Address::new(255, 255, 255, 255), 32).network(),
        Cidr::new(Address::new(255, 255, 255, 255), 32)
    );
}
