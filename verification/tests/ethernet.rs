use smoltcp_wire::ethernet::{Address, EtherType, Frame, Repr};

#[test]
fn ethernet_test_broadcast() {
    assert!(Address::broadcast().is_broadcast());
    assert!(!Address::broadcast().is_unicast());
    assert!(Address::broadcast().is_multicast());
    assert!(Address::broadcast().is_local());
}

static FRAME_BYTES_V4: [u8; 64] = [
    0x01, 0x02, 0x03, 0x04, 0x05, 0x06, 0x11, 0x12, 0x13, 0x14, 0x15, 0x16, 0x08, 0x00, 0xaa,
    0x00, 0x00, 0x00, 0x00, 0x00, 0x00, 0x00, 0x00, 0x00, 0x00, 0x00, 0x00, 0x00, 0x00, 0x00,
    0x00, 0x00, 0x00, 0x00, 0x00, 0x00, 0x00, 0x00, 0x00, 0x00, 0x00, 0x00, 0x00, 0x00, 0x00,
    0x00, 0x00, 0x00, 0x00, 0x00, 0x00, 0x00, 0x00, 0x00, 0x00, 0x00, 0x00, 0x00, 0x00, 0x00,
    0x00, 0x00, 0x00, 0xff,
];

static PAYLOAD_BYTES_V4: [u8; 50] = [
    0xaa, 0x00, 0x00, 0x00, 0x00, 0x00, 0x00, 0x00, 0x00, 0x00, 0x00, 0x00, 0x00, 0x00, 0x00,
    0x00, 0x00, 0x00, 0x00, 0x00, 0x00, 0x00, 0x00, 0x00, 0x00, 0x00, 0x00, 0x00, 0x00, 0x00,
    0x00, 0x00, 0x00, 0x00, 0x00, 0x00, 0x00, 0x00, 0x00, 0x00, 0x00, 0x00, 0x00, 0x00, 0x00,
    0x00, 0x00, 0x00, 0x00, 0xff,
];

#[test]
fn ethernet_test_deconstruct() {
    let frame = Frame::new_unchecked(&FRAME_BYTES_V4[..]);
    assert_eq!(frame.dst_addr(), Address::from_octets([0x01, 0x02, 0x03, 0x04, 0x05, 0x06]));
    assert_eq!(frame.src_addr(), Address::from_octets([0x11, 0x12, 0x13, 0x14, 0x15, 0x16]));
    assert_eq!(frame.ethertype(), EtherType::Ipv4);
    assert_eq!(frame.payload(), &PAYLOAD_BYTES_V4[..]);
}

#[test]
fn ethernet_test_construct() {
    let mut bytes = vec![0xa5; 64];
    let mut frame = Frame::new_unchecked(&mut bytes);
    frame.set_dst_addr(Address::from_octets([0x01, 0x02, 0x03, 0x04, 0x05, 0x06]));
    frame.set_src_addr(Address::from_octets([0x11, 0x12, 0x13, 0x14, 0x15, 0x16]));
    frame.set_ethertype(EtherType::Ipv4);
    frame.payload_mut().copy_from_slice(&PAYLOAD_BYTES_V4[..]);
    assert_eq!(&frame.into_inner()[..], &FRAME_BYTES_V4[..]);
}

static FRAME_BYTES_V6: [u8; 54] = [
    0x01, 0x02, 0x03, 0x04, 0x05, 0x06, 0x11, 0x12, 0x13, 0x14, 0x15, 0x16, 0x86, 0xdd, 0x60,
    0x00, 0x00, 0x00, 0x00, 0x00, 0x00, 0x00, 0xfe, 0x80, 0x00, 0x00, 0x00, 0x00, 0x00, 0x00,
    0x00, 0x00, 0x00, 0x00, 0x00, 0x00, 0x00, 0x01, 0x00, 0x00, 0x00, 0x00, 0x00, 0x00, 0x00,
    0x00, 0x00, 0x00, 0x00, 0x00, 0x00, 0x00, 0x00, 0x01,
];

static PAYLOAD_BYTES_V6: [u8; 40] = [
    0x60, 0x00, 0x00, 0x00, 0x00, 0x00, 0x00, 0x00, 0xfe, 0x80, 0x00, 0x00, 0x00, 0x00, 0x00,
    0x00, 0x00, 0x00, 0x00, 0x00, 0x00, 0x00, 0x00, 0x01, 0x00, 0x00, 0x00, 0x00, 0x00, 0x00,
    0x00, 0x00, 0x00, 0x00, 0x00, 0x00, 0x00, 0x00, 0x00, 0x01,
];

#[test]
fn ethernet_test_deconstruct_ipv6() {
    let frame = Frame::new_unchecked(&FRAME_BYTES_V6[..]);
    assert_eq!(frame.dst_addr(), Address::from_octets([0x01, 0x02, 0x03, 0x04, 0x05, 0x06]));
    assert_eq!(frame.src_addr(), Address::from_octets([0x11, 0x12, 0x13, 0x14, 0x15, 0x16]));
    assert_eq!(frame.ethertype(), EtherType::Ipv6);
    assert_eq!(frame.payload(), &PAYLOAD_BYTES_V6[..]);
}

#[test]
fn ethernet_test_construct_ipv6() {
    let mut bytes = vec![0xa5; 54];
    let mut frame = Frame::new_unchecked(&mut bytes);
    frame.set_dst_addr(Address::from_octets([0x01, 0x02, 0x03, 0x04, 0x05, 0x06]));
    frame.set_src_addr(Address::from_octets([0x11, 0x12, 0x13, 0x14, 0x15, 0x16]));
    frame.set_ethertype(EtherType::Ipv6);
    assert_eq!(PAYLOAD_BYTES_V6.len(), frame.payload_mut().len());
    frame.payload_mut().copy_from_slice(&PAYLOAD_BYTES_V6[..]);
    assert_eq!(&frame.into_inner()[..], &FRAME_BYTES_V6[..]);
}

#[test]
fn address_is_still_six_bytes() {
    assert_eq!(core::mem::size_of::<Address>(), 6);
    assert_eq!(core::mem::align_of::<Address>(), 1);
    let a = Address::new(0x12, 0x22, 0x33, 0x44, 0x55, 0x66);
    assert_eq!(a.as_bytes(), &[0x12, 0x22, 0x33, 0x44, 0x55, 0x66]);
    assert_eq!(a.octets(), [0x12, 0x22, 0x33, 0x44, 0x55, 0x66]);
    assert_eq!(Address::from_bytes(&[0x12, 0x22, 0x33, 0x44, 0x55, 0x66]), a);
    assert!(Address::broadcast().is_broadcast());
    assert!(Address::broadcast().is_multicast());
    assert!(!Address::broadcast().is_unicast());
    assert!(a.is_unicast() && !a.is_multicast());
    let m = Address::new(0x13, 0x22, 0x33, 0x44, 0x55, 0x66);
    assert!(m.is_multicast() && !m.is_unicast());
}

#[test]
fn eui_64_splits_at_the_oui_and_flips_the_ul_bit() {
    let a = Address::new(0x11, 0x12, 0x13, 0x14, 0x15, 0x16);
    assert_eq!(a.as_eui_64(), Some([0x13, 0x12, 0x13, 0xff, 0xfe, 0x14, 0x15, 0x16]));
}

#[test]
fn ethernet_frame_check_len() {
    assert!(Frame::new_checked(&FRAME_BYTES_V4[..13]).is_err());
    assert!(Frame::new_checked(&FRAME_BYTES_V4[..14]).is_ok());
}

#[test]
fn ethernet_repr_emit_then_parse() {
    let repr = Repr {
        src_addr: Address::new(0x02, 0, 0, 0, 0, 1),
        dst_addr: Address::broadcast(),
        ethertype: EtherType::Arp,
    };
    let mut bytes = vec![0u8; repr.buffer_len()];
    let mut frame = Frame::new_unchecked(&mut bytes);
    repr.emit(&mut frame);
    let frame = Frame::new_unchecked(&bytes[..]);
    assert_eq!(Repr::parse(&frame), Ok(repr));
    assert_eq!(&bytes[..], &[0xff, 0xff, 0xff, 0xff, 0xff, 0xff, 0x02, 0, 0, 0, 0, 1, 0x08, 0x06]);
}

#[test]
fn ethernet_local_address_bit() {
    assert!(Address::new(0x02, 0, 0, 0, 0, 0).is_local());
    assert!(!Address::new(0x00, 0, 0, 0, 0, 0).is_local());
}
