use smoltcp_wire::buf::Ref;
use smoltcp_wire::error::Error;
use smoltcp_wire::ip::IpProtocol;
use smoltcp_wire::ipv6ext_header::{Header, Repr};

static EXT_PACKET_PAD4: [u8; 8] = [0x6, 0x0, 0x1, 0x4, 0x0, 0x0, 0x0, 0x0];

static EXT_PACKET_PAD12: [u8; 16] = [
    0x06, 0x1, 0x1, 0x0C, 0x0, 0x0, 0x0, 0x0, 0x0, 0x0, 0x0, 0x0, 0x0, 0x0, 0x0, 0x0,
];

#[test]
fn ipv6ext_header_test_check_len() {
    assert_eq!(Err(Error), Header::new_unchecked(&EXT_PACKET_PAD4[..0]).check_len());
    assert_eq!(Err(Error), Header::new_unchecked(&EXT_PACKET_PAD4[..1]).check_len());
    assert_eq!(Err(Error), Header::new_unchecked(&EXT_PACKET_PAD4[..7]).check_len());
    assert_eq!(Ok(()), Header::new_unchecked(&EXT_PACKET_PAD4).check_len());
    assert_eq!(Ok(()), Header::new_unchecked(&EXT_PACKET_PAD12).check_len());
    let header: [u8; 8] = [0x06, 0x2, 0x0, 0x0, 0x0, 0x0, 0x0, 0x0];
    assert_eq!(Err(Error), Header::new_unchecked(&header).check_len());
}

#[test]
fn ipv6ext_header_ghost_field_is_not_observable() {
    let header = Header::new_unchecked(&EXT_PACKET_PAD4[..]);
    let s = format!("{header:?}");
    assert!(!s.contains("Ghost"), "ghost leaked into Debug: {s}");
    assert!(s.starts_with("Header { buffer: "), "Debug shape changed: {s}");
}

#[test]
fn set_next_header_preserves_header_len() {
    let mut bytes = EXT_PACKET_PAD12;
    let mut header = Header::new_unchecked(&mut bytes[..]);
    header.set_header_len(1);
    header.set_next_header(IpProtocol::Udp);
    assert_eq!(header.header_len(), 1);
}

#[test]
fn ipv6ext_header_test_header_deconstruct() {
    let header = Header::new_unchecked(Ref::new(&EXT_PACKET_PAD4[..]));
    assert_eq!(header.next_header(), IpProtocol::Tcp);
    assert_eq!(header.header_len(), 0);
    assert_eq!(header.payload(), &EXT_PACKET_PAD4[2..]);

    let header = Header::new_unchecked(Ref::new(&EXT_PACKET_PAD12[..]));
    assert_eq!(header.next_header(), IpProtocol::Tcp);
    assert_eq!(header.header_len(), 1);
    assert_eq!(header.payload(), &EXT_PACKET_PAD12[2..]);
}

#[test]
fn ipv6ext_header_test_overlong() {
    let mut bytes = vec![];
    bytes.extend(&EXT_PACKET_PAD4[..]);
    bytes.push(0);

    assert_eq!(
        Header::new_unchecked(Ref::new(&bytes[..])).payload().len(),
        EXT_PACKET_PAD4[2..].len()
    );
    assert_eq!(
        Header::new_unchecked(&mut bytes).payload_mut().len(),
        EXT_PACKET_PAD4[2..].len()
    );

    let mut bytes = vec![];
    bytes.extend(&EXT_PACKET_PAD12[..]);
    bytes.push(0);

    assert_eq!(
        Header::new_unchecked(Ref::new(&bytes[..])).payload().len(),
        EXT_PACKET_PAD12[2..].len()
    );
    assert_eq!(
        Header::new_unchecked(&mut bytes).payload_mut().len(),
        EXT_PACKET_PAD12[2..].len()
    );
}

#[test]
fn test_header_len_overflow() {
    let mut bytes = vec![];
    bytes.extend(EXT_PACKET_PAD4);
    let len = bytes.len() as u8;
    Header::new_unchecked(&mut bytes).set_header_len(len + 1);

    assert_eq!(Header::new_checked(&bytes).unwrap_err(), Error);

    let mut bytes = vec![];
    bytes.extend(EXT_PACKET_PAD12);
    let len = bytes.len() as u8;
    Header::new_unchecked(&mut bytes).set_header_len(len + 1);

    assert_eq!(Header::new_checked(&bytes).unwrap_err(), Error);
}

#[test]
fn ipv6ext_header_test_repr_parse_valid() {
    let header = Header::new_unchecked(&EXT_PACKET_PAD4);
    let repr = Repr::parse(&header).unwrap();
    assert_eq!(
        repr,
        Repr { next_header: IpProtocol::Tcp, length: 0, data: &EXT_PACKET_PAD4[2..] }
    );

    let header = Header::new_unchecked(&EXT_PACKET_PAD12);
    let repr = Repr::parse(&header).unwrap();
    assert_eq!(
        repr,
        Repr { next_header: IpProtocol::Tcp, length: 1, data: &EXT_PACKET_PAD12[2..] }
    );
}

#[test]
fn ipv6ext_header_test_repr_emit() {
    let repr = Repr { next_header: IpProtocol::Tcp, length: 0, data: &EXT_PACKET_PAD4[2..] };
    let mut bytes = [0u8; 2];
    let mut header = Header::new_unchecked(&mut bytes);
    repr.emit(&mut header);
    assert_eq!(header.into_inner(), &EXT_PACKET_PAD4[..2]);

    let repr = Repr { next_header: IpProtocol::Tcp, length: 1, data: &EXT_PACKET_PAD12[2..] };
    let mut bytes = [0u8; 2];
    let mut header = Header::new_unchecked(&mut bytes);
    repr.emit(&mut header);
    assert_eq!(header.into_inner(), &EXT_PACKET_PAD12[..2]);
}

#[test]
fn ipv6ext_header_parse_refuses_declared_overrun() {
    let bytes: [u8; 8] = [0x11, 0x01, 0, 0, 0, 0, 0, 0];
    assert_eq!(Header::new_checked(&bytes[..]).unwrap_err(), Error);
}
