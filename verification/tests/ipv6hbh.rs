use heapless::Vec;
use smoltcp_wire::error::Error;
use smoltcp_wire::ipv6hbh::{Header, Repr};
use smoltcp_wire::ipv6option::Repr as Ipv6OptionRepr;

static HBH_PACKET_PAD4: [u8; 6] = [0x1, 0x4, 0x0, 0x0, 0x0, 0x0];

static HBH_PACKET_PAD12: [u8; 14] = [
    0x1, 0x0C, 0x0, 0x0, 0x0, 0x0, 0x0, 0x0, 0x0, 0x0, 0x0, 0x0, 0x0, 0x0,
];

#[test]
fn ipv6hbh_test_check_len() {
    assert_eq!(Err(Error), Header::new_unchecked(&HBH_PACKET_PAD4[..0]).check_len());
    assert_eq!(Ok(()), Header::new_unchecked(&HBH_PACKET_PAD4).check_len());
    assert_eq!(Ok(()), Header::new_unchecked(&HBH_PACKET_PAD12).check_len());
}

#[test]
fn ipv6hbh_test_repr_parse_valid() {
    let header = Header::new_unchecked(&HBH_PACKET_PAD4);
    let repr = Repr::parse(&header).unwrap();

    let mut options = Vec::new();
    options.push(Ipv6OptionRepr::PadN(4)).unwrap();
    assert_eq!(repr, Repr::new(options));

    let header = Header::new_unchecked(&HBH_PACKET_PAD12);
    let repr = Repr::parse(&header).unwrap();

    let mut options = Vec::new();
    options.push(Ipv6OptionRepr::PadN(12)).unwrap();
    assert_eq!(repr, Repr::new(options));
}

#[test]
fn ipv6hbh_test_repr_emit() {
    let mut options = Vec::new();
    options.push(Ipv6OptionRepr::PadN(4)).unwrap();
    let repr = Repr::new(options);

    let mut bytes = [0u8; 6];
    let mut header = Header::new_unchecked(&mut bytes);
    repr.emit(&mut header);

    assert_eq!(header.into_inner(), &HBH_PACKET_PAD4[..]);

    let mut options = Vec::new();
    options.push(Ipv6OptionRepr::PadN(12)).unwrap();
    let repr = Repr::new(options);

    let mut bytes = [0u8; 14];
    let mut header = Header::new_unchecked(&mut bytes);
    repr.emit(&mut header);

    assert_eq!(header.into_inner(), &HBH_PACKET_PAD12[..]);
}

#[test]
fn ipv6hbh_router_alert_roundtrip() {
    let repr = Repr::mldv2_router_alert();
    assert_eq!(repr.buffer_len(), 4);
    let mut bytes = [0xffu8; 4];
    let mut header = Header::new_unchecked(&mut bytes);
    repr.emit(&mut header);
    assert_eq!(bytes, [0x05, 0x02, 0x00, 0x00]);
    let header = Header::new_unchecked(&bytes);
    let parsed = Repr::parse(&header).unwrap();
    assert_eq!(parsed, repr);
}

#[test]
fn ipv6hbh_push_padn_option_grows_the_header() {
    let mut repr = Repr::mldv2_router_alert();
    repr.push_padn_option(2);
    assert_eq!(repr.options().len(), 2);
    assert_eq!(repr.buffer_len(), 4 + 4);
}

#[test]
fn ipv6hbh_parse_refuses_truncated_option() {
    let bytes = [0x1u8, 0x08, 0x0, 0x0];
    let header = Header::new_unchecked(&bytes);
    assert_eq!(Repr::parse(&header), Err(Error));
}
