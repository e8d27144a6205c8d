use smoltcp_wire::arp::{Hardware, Operation, Packet, Protocol, Repr};
use smoltcp_wire::error::Error;
use smoltcp_wire::ethernet::Address as EthernetAddress;
use smoltcp_wire::ipv4::Address as Ipv4Address;

static PACKET_BYTES: [u8; 28] = [
    0x00, 0x01, 0x08, 0x00, 0x06, 0x04, 0x00, 0x01, 0x11, 0x12, 0x13, 0x14, 0x15, 0x16, 0x21,
    0x22, 0x23, 0x24, 0x31, 0x32, 0x33, 0x34, 0x35, 0x36, 0x41, 0x42, 0x43, 0x44,
];

#[test]
fn arp_ghost_fields_are_not_observable() {
    let bytes = [0u8; 28];
    let packet = Packet::new_unchecked(&bytes[..]);
    let s = format!("{packet:?}");
    assert!(!s.contains("Ghost"), "ghosts leaked into Debug: {s}");
    assert!(s.starts_with("Packet { buffer: "), "Debug shape changed: {s}");
}

#[test]
fn arp_test_deconstruct() {
    let packet = Packet::new_unchecked(&PACKET_BYTES[..]);
    assert_eq!(packet.hardware_type(), Hardware::Ethernet);
    assert_eq!(packet.protocol_type(), Protocol::Ipv4);
    assert_eq!(packet.hardware_len(), 6);
    assert_eq!(packet.protocol_len(), 4);
    assert_eq!(packet.operation(), Operation::Request);
    assert_eq!(packet.source_hardware_addr(), &[0x11, 0x12, 0x13, 0x14, 0x15, 0x16]);
    assert_eq!(packet.source_protocol_addr(), &[0x21, 0x22, 0x23, 0x24]);
    assert_eq!(packet.target_hardware_addr(), &[0x31, 0x32, 0x33, 0x34, 0x35, 0x36]);
    assert_eq!(packet.target_protocol_addr(), &[0x41, 0x42, 0x43, 0x44]);
}

#[test]
fn arp_test_construct() {
    let mut bytes = vec![0xa5; 28];
    let mut packet = Packet::new_unchecked(&mut bytes);
    packet.set_hardware_type(Hardware::Ethernet);
    packet.set_protocol_type(Protocol::Ipv4);
    packet.set_hardware_len(6);
    packet.set_protocol_len(4);
    packet.set_operation(Operation::Request);
    packet.set_source_hardware_addr(&[0x11, 0x12, 0x13, 0x14, 0x15, 0x16]);
    packet.set_source_protocol_addr(&[0x21, 0x22, 0x23, 0x24]);
    packet.set_target_hardware_addr(&[0x31, 0x32, 0x33, 0x34, 0x35, 0x36]);
    packet.set_target_protocol_addr(&[0x41, 0x42, 0x43, 0x44]);
    assert_eq!(&*packet.into_inner(), &PACKET_BYTES[..]);
}

fn packet_repr() -> Repr {
    Repr::EthernetIpv4 {
        operation: Operation::Request,
        source_hardware_addr: EthernetAddress::from_bytes(&[0x11, 0x12, 0x13, 0x14, 0x15, 0x16]),
        source_protocol_addr: Ipv4Address::from_octets([0x21, 0x22, 0x23, 0x24]),
        target_hardware_addr: EthernetAddress::from_bytes(&[0x31, 0x32, 0x33, 0x34, 0x35, 0x36]),
        target_protocol_addr: Ipv4Address::from_octets([0x41, 0x42, 0x43, 0x44]),
    }
}

#[test]
fn arp_test_parse() {
    let packet = Packet::new_unchecked(&PACKET_BYTES[..]);
    let repr = Repr::parse(&packet).unwrap();
    assert_eq!(repr, packet_repr());
}

#[test]
fn arp_test_emit() {
    let mut bytes = vec![0xa5; 28];
    let mut packet = Packet::new_unchecked(&mut bytes);
    packet_repr().emit(&mut packet);
    assert_eq!(&*packet.into_inner(), &PACKET_BYTES[..]);
}

#[test]
fn arp_emit_then_parse_gives_back_the_repr() {
    let repr = Repr::EthernetIpv4 {
        operation: Operation::Reply,
        source_hardware_addr: EthernetAddress::new(0x02, 0, 0, 0, 0, 1),
        source_protocol_addr: Ipv4Address::new(10, 0, 0, 1),
        target_hardware_addr: EthernetAddress::new(0x02, 0, 0, 0, 0, 2),
        target_protocol_addr: Ipv4Address::new(10, 0, 0, 2),
    };
    let mut bytes = vec![0u8; repr.buffer_len()];
    let mut packet = Packet::new_unchecked(&mut bytes);
    repr.emit(&mut packet);
    let packet = Packet::new_unchecked(&bytes[..]);
    assert_eq!(Repr::parse(&packet), Ok(repr));
}

#[test]
fn arp_parse_refuses_other_media() {
    let mut bytes = PACKET_BYTES;
    bytes[1] = 0x06;
    let packet = Packet::new_unchecked(&bytes[..]);
    assert_eq!(Repr::parse(&packet), Err(Error));
}

#[test]
fn arp_check_len_short_and_truncated() {
    assert_eq!(Packet::new_checked(&PACKET_BYTES[..7]), Err(Error));
    assert_eq!(Packet::new_checked(&PACKET_BYTES[..27]), Err(Error));
    assert!(Packet::new_checked(&PACKET_BYTES[..]).is_ok());
}
