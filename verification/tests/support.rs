use smoltcp_wire::checksum::{combine, data, propagate_carries};
use smoltcp_wire::ethernet::Address as EthernetAddress;
use smoltcp_wire::hardware::RawHardwareAddress;
use smoltcp_wire::ip::IpProtocol;
use smoltcp_wire::ipv6::{Address as Ipv6Address, Packet as Ipv6Packet, Repr as Ipv6Repr};
use smoltcp_wire::time::Duration;

#[test]
fn checksum_of_known_words() {
    assert_eq!(data(&[0x00, 0x01, 0xf2, 0x03, 0xf4, 0xf5, 0xf6, 0xf7]), 0xddf2);
    assert_eq!(data(&[0x01]), 0x0100);
    assert_eq!(data(&[]), 0);
    assert_eq!(combine(&[0xffff, 0x0001]), 0x0001);
    assert_eq!(propagate_carries(0x1_fffe), 0xffff);
}

#[test]
fn duration_units() {
    let d = Duration::from_secs(3);
    assert_eq!(d.total_millis(), 3000);
    assert_eq!(d.total_micros(), 3_000_000);
    assert_eq!(Duration::from_millis(2500).secs(), 2);
    assert_eq!(Duration::from_micros(1999).total_millis(), 1);
}

#[test]
fn raw_hardware_address_keeps_its_octets() {
    let a = RawHardwareAddress::from_bytes(&[1, 2, 3]);
    assert_eq!(a.len(), 3);
    assert_eq!(a.as_bytes(), &[1, 2, 3]);
    assert!(!a.is_empty());
    let e: RawHardwareAddress = EthernetAddress::new(1, 2, 3, 4, 5, 6).into();
    assert_eq!(e.as_bytes(), &[1, 2, 3, 4, 5, 6]);
    assert!(RawHardwareAddress::from_bytes(&[]).is_empty());
}

#[test]
fn ipv6_address_classes() {
    assert!(Ipv6Address::unspecified().is_unspecified());
    assert!(Ipv6Address::new(0xff02, 0, 0, 0, 0, 0, 0, 1).is_multicast());
    assert!(Ipv6Address::new(0xfe80, 0, 0, 0, 0, 0, 0, 1).is_link_local());
    assert!(!Ipv6Address::localhost().is_link_local());
    assert_eq!(Ipv6Address::localhost().octets()[15], 1);
}

#[test]
fn ipv6_header_emit_then_parse() {
    let repr = Ipv6Repr {
        src_addr: Ipv6Address::new(0xfe80, 0, 0, 0, 0, 0, 0, 1),
        dst_addr: Ipv6Address::new(0xff02, 0, 0, 0, 0, 0, 0, 1),
        next_header: IpProtocol::Icmpv6,
        payload_len: 4,
        hop_limit: 255,
    };
    let mut bytes = vec![0xeeu8; 44];
    let mut packet = Ipv6Packet::new_unchecked(&mut bytes);
    repr.emit(&mut packet);
    let packet = Ipv6Packet::new_unchecked(&bytes[..]);
    assert_eq!(packet.version(), 6);
    assert_eq!(Ipv6Repr::parse(&packet), Ok(repr));
}
