use smoltcp_wire::buf::Ref;
use smoltcp_wire::error::Error;
use smoltcp_wire::ipv6::Address;
use smoltcp_wire::ipv6routing::{Header, Repr, Type};

static BYTES_TYPE2: [u8; 22] = [
    0x2, 0x1, 0x0, 0x0, 0x0, 0x0, 0x0, 0x0, 0x0, 0x0, 0x0, 0x0, 0x0, 0x0, 0x0, 0x0, 0x0, 0x0,
    0x0, 0x0, 0x0, 0x1,
];

fn repr_type2() -> Repr<'static> {
    Repr::Type2 { segments_left: 1, home_address: Address::localhost() }
}

static BYTES_SRH_FULL: [u8; 38] = [
    0x3, 0x2, 0x0, 0x0, 0x0, 0x0, 0xfd, 0x0, 0x0, 0x0, 0x0, 0x0, 0x0, 0x0, 0x0, 0x0, 0x0, 0x0,
    0x0, 0x0, 0x0, 0x2, 0xfd, 0x0, 0x0, 0x0, 0x0, 0x0, 0x0, 0x0, 0x0, 0x0, 0x0, 0x0, 0x0, 0x0,
    0x3, 0x1,
];

static SRH_FULL_ADDRESSES: [u8; 32] = [
    0xfd, 0x0, 0x0, 0x0, 0x0, 0x0, 0x0, 0x0, 0x0, 0x0, 0x0, 0x0, 0x0, 0x0, 0x0, 0x2, 0xfd, 0x0,
    0x0, 0x0, 0x0, 0x0, 0x0, 0x0, 0x0, 0x0, 0x0, 0x0, 0x0, 0x0, 0x3, 0x1,
];

fn repr_srh_full() -> Repr<'static> {
    Repr::Rpl { segments_left: 2, cmpr_i: 0, cmpr_e: 0, pad: 0, addresses: &SRH_FULL_ADDRESSES }
}

static BYTES_SRH_ELIDED: [u8; 14] = [
    0x3, 0x2, 0xfe, 0x50, 0x0, 0x0, 0x2, 0x3, 0x1, 0x0, 0x0, 0x0, 0x0, 0x0,
];

static SRH_ELIDED_ADDRESSES: [u8; 8] = [0x2, 0x3, 0x1, 0x0, 0x0, 0x0, 0x0, 0x0];

fn repr_srh_elided() -> Repr<'static> {
    Repr::Rpl { segments_left: 2, cmpr_i: 15, cmpr_e: 14, pad: 5, addresses: &SRH_ELIDED_ADDRESSES }
}

#[test]
fn ipv6routing_test_check_len() {
    assert_eq!(Err(Error), Header::new_unchecked(&BYTES_TYPE2[..3]).check_len());
    assert_eq!(Err(Error), Header::new_unchecked(&BYTES_SRH_FULL[..3]).check_len());
    assert_eq!(Err(Error), Header::new_unchecked(&BYTES_SRH_ELIDED[..3]).check_len());
    assert_eq!(Ok(()), Header::new_unchecked(&BYTES_TYPE2[..]).check_len());
    assert_eq!(Ok(()), Header::new_unchecked(&BYTES_SRH_FULL[..]).check_len());
    assert_eq!(Ok(()), Header::new_unchecked(&BYTES_SRH_ELIDED[..]).check_len());
}

#[test]
fn ipv6routing_test_header_deconstruct() {
    let header = Header::new_unchecked(&BYTES_TYPE2[..]);
    assert_eq!(header.routing_type(), Type::Type2);
    assert_eq!(header.segments_left(), 1);
    assert_eq!(header.home_address(), Address::localhost());

    let header = Header::new_unchecked(&BYTES_SRH_FULL[..]);
    assert_eq!(header.routing_type(), Type::Rpl);
    assert_eq!(header.segments_left(), 2);
    assert_eq!(header.addresses(), &BYTES_SRH_FULL[6..]);

    let header = Header::new_unchecked(&BYTES_SRH_ELIDED[..]);
    assert_eq!(header.routing_type(), Type::Rpl);
    assert_eq!(header.segments_left(), 2);
    assert_eq!(header.addresses(), &BYTES_SRH_ELIDED[6..]);
}

#[test]
fn ipv6routing_test_repr_parse_valid() {
    let header = Header::new_checked(Ref::new(&BYTES_TYPE2[..])).unwrap();
    let repr = Repr::parse_ref(&header).unwrap();
    assert_eq!(repr, repr_type2());

    let header = Header::new_checked(Ref::new(&BYTES_SRH_FULL[..])).unwrap();
    let repr = Repr::parse_ref(&header).unwrap();
    assert_eq!(repr, repr_srh_full());

    let header = Header::new_checked(Ref::new(&BYTES_SRH_ELIDED[..])).unwrap();
    let repr = Repr::parse_ref(&header).unwrap();
    assert_eq!(repr, repr_srh_elided());
}

#[test]
fn ipv6routing_test_repr_emit() {
    let mut bytes = [0xFFu8; 22];
    let mut header = Header::new_unchecked(&mut bytes[..]);
    repr_type2().emit(&mut header);
    assert_eq!(header.into_inner(), &BYTES_TYPE2[..]);

    let mut bytes = [0xFFu8; 38];
    let mut header = Header::new_unchecked(&mut bytes[..]);
    repr_srh_full().emit(&mut header);
    assert_eq!(header.into_inner(), &BYTES_SRH_FULL[..]);

    let mut bytes = [0xFFu8; 14];
    let mut header = Header::new_unchecked(&mut bytes[..]);
    repr_srh_elided().emit(&mut header);
    assert_eq!(header.into_inner(), &BYTES_SRH_ELIDED[..]);
}

#[test]
fn test_buffer_len() {
    assert_eq!(repr_type2().buffer_len(), 22);
    assert_eq!(repr_srh_full().buffer_len(), 38);
    assert_eq!(repr_srh_elided().buffer_len(), 14);
}

#[test]
fn ipv6routing_unknown_type_is_refused() {
    let mut bytes = BYTES_TYPE2;
    bytes[0] = 0x7;
    let header = Header::new_checked(Ref::new(&bytes[..])).unwrap();
    assert_eq!(Repr::parse_ref(&header), Err(Error));
}
