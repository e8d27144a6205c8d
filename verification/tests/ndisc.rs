use smoltcp_wire::buf::Ref;
use smoltcp_wire::ethernet::Address as EthernetAddress;
use smoltcp_wire::hardware::RawHardwareAddress;
use smoltcp_wire::icmpv6::{Message, Packet, Repr as Icmpv6Repr};
use smoltcp_wire::ip::IpProtocol;
use smoltcp_wire::ipv6::{Address as Ipv6Address, Repr as Ipv6Repr};
use smoltcp_wire::ndisc::{Maybe, MaybeAddr, MaybeRedirected, NeighborFlags, Repr, RouterFlags};
use smoltcp_wire::ndiscoption::{PrefixInfoFlags, PrefixInformation, RedirectedHeader};
use smoltcp_wire::phy::ChecksumCapabilities;
use smoltcp_wire::time::Duration;

fn mock_ip_addr_1() -> Ipv6Address {
    Ipv6Address::new(0xfe80, 0, 0, 0, 0, 0, 0, 1)
}

fn mock_ip_addr_2() -> Ipv6Address {
    Ipv6Address::new(0xfe80, 0, 0, 0, 0, 0, 0, 2)
}

static ROUTER_ADVERT_BYTES: [u8; 24] = [
    0x86, 0x00, 0xa9, 0xde, 0x40, 0x80, 0x03, 0x84, 0x00, 0x00, 0x03, 0x84, 0x00, 0x00, 0x03,
    0x84, 0x01, 0x01, 0x52, 0x54, 0x00, 0x12, 0x34, 0x56,
];
static SOURCE_LINK_LAYER_OPT: [u8; 8] = [0x01, 0x01, 0x52, 0x54, 0x00, 0x12, 0x34, 0x56];

fn create_repr<'a>() -> Icmpv6Repr<'a> {
    Icmpv6Repr::Ndisc(Repr::RouterAdvert {
        hop_limit: 64,
        flags: RouterFlags::managed(),
        router_lifetime: Duration::from_secs(900),
        reachable_time: Duration::from_millis(900),
        retrans_time: Duration::from_millis(900),
        lladdr: MaybeAddr::Present(
            EthernetAddress::from_octets([0x52, 0x54, 0x00, 0x12, 0x34, 0x56]).into(),
        ),
        mtu: Maybe::Nothing,
        prefix_info: Maybe::Nothing,
    })
}

#[test]
#[should_panic]
fn test_short_buffer_panics_rather_than_writing_out_of_bounds() {
    let repr = Icmpv6Repr::Ndisc(Repr::RouterAdvert {
        hop_limit: 64,
        flags: RouterFlags::managed(),
        router_lifetime: Duration::from_secs(900),
        reachable_time: Duration::from_millis(900),
        retrans_time: Duration::from_millis(900),
        lladdr: MaybeAddr::Present(RawHardwareAddress::from_bytes(&[1, 2, 3])),
        mtu: Maybe::Just(1500),
        prefix_info: Maybe::Nothing,
    });

    let mut bytes = [0u8; 21];
    let mut packet = Packet::new_unchecked(&mut bytes[..]);
    repr.emit(&mock_ip_addr_1(), &mock_ip_addr_2(), &mut packet, &ChecksumCapabilities::default());
}

#[test]
fn test_router_advert_deconstruct() {
    let packet = Packet::new_unchecked(Ref::new(&ROUTER_ADVERT_BYTES[..]));
    assert_eq!(packet.msg_type(), Message::RouterAdvert);
    assert_eq!(packet.msg_code(), 0);
    assert_eq!(packet.current_hop_limit(), 64);
    assert_eq!(packet.router_flags(), RouterFlags::managed());
    assert_eq!(packet.router_lifetime(), Duration::from_secs(900));
    assert_eq!(packet.reachable_time(), Duration::from_millis(900));
    assert_eq!(packet.retrans_time(), Duration::from_millis(900));
    assert_eq!(packet.payload(), &SOURCE_LINK_LAYER_OPT[..]);
}

#[test]
fn test_router_advert_construct() {
    let mut bytes = vec![0x0; 24];
    let mut packet = Packet::new_unchecked(&mut bytes);
    packet.set_msg_type(Message::RouterAdvert);
    packet.set_msg_code(0);
    packet.set_current_hop_limit(64);
    packet.set_router_flags(RouterFlags::managed());
    packet.set_router_lifetime(Duration::from_secs(900));
    packet.set_reachable_time(Duration::from_millis(900));
    packet.set_retrans_time(Duration::from_millis(900));
    packet.payload_mut().copy_from_slice(&SOURCE_LINK_LAYER_OPT[..]);
    packet.fill_checksum(&mock_ip_addr_1(), &mock_ip_addr_2());
    assert_eq!(&*packet.into_inner(), &ROUTER_ADVERT_BYTES[..]);
}

#[test]
fn test_router_advert_repr_parse() {
    let packet = Packet::new_unchecked(Ref::new(&ROUTER_ADVERT_BYTES[..]));
    assert_eq!(
        Icmpv6Repr::parse_ref(
            &mock_ip_addr_1(),
            &mock_ip_addr_2(),
            &packet,
            &ChecksumCapabilities::default()
        )
        .unwrap(),
        create_repr()
    );
}

#[test]
fn test_router_advert_repr_emit() {
    let mut bytes = [0x2a; 24];
    let mut packet = Packet::new_unchecked(&mut bytes[..]);
    create_repr().emit(
        &mock_ip_addr_1(),
        &mock_ip_addr_2(),
        &mut packet,
        &ChecksumCapabilities::default(),
    );
    assert_eq!(&*packet.into_inner(), &ROUTER_ADVERT_BYTES[..]);
}

#[test]
fn test_redirect_lladdr_roundtrip() {
    let lladdr = EthernetAddress::from_octets([0x52, 0x54, 0x00, 0x12, 0x34, 0x56]).into();
    let repr = Icmpv6Repr::Ndisc(Repr::Redirect {
        target_addr: mock_ip_addr_1(),
        dest_addr: mock_ip_addr_2(),
        lladdr: MaybeAddr::Present(lladdr),
        redirected_hdr: MaybeRedirected::Absent,
    });

    let mut bytes = vec![0u8; repr.buffer_len()];
    let mut packet = Packet::new_unchecked(&mut bytes[..]);
    repr.emit(&mock_ip_addr_1(), &mock_ip_addr_2(), &mut packet, &ChecksumCapabilities::default());

    let packet = Packet::new_unchecked(Ref::new(&bytes[..]));
    let parsed = Icmpv6Repr::parse_ref(
        &mock_ip_addr_1(),
        &mock_ip_addr_2(),
        &packet,
        &ChecksumCapabilities::default(),
    )
    .unwrap();
    assert_eq!(parsed, repr);
}

#[test]
fn ndisc_neighbor_advert_roundtrip() {
    let lladdr = EthernetAddress::new(0x02, 0, 0, 0, 0, 9).into();
    let repr = Icmpv6Repr::Ndisc(Repr::NeighborAdvert {
        flags: NeighborFlags::solicited() | NeighborFlags::override_(),
        target_addr: mock_ip_addr_2(),
        lladdr: MaybeAddr::Present(lladdr),
    });
    assert_eq!(repr.buffer_len(), 32);
    let mut bytes = vec![0xffu8; repr.buffer_len()];
    let mut packet = Packet::new_unchecked(&mut bytes[..]);
    repr.emit(&mock_ip_addr_2(), &mock_ip_addr_1(), &mut packet, &ChecksumCapabilities::default());
    assert_eq!(bytes[0], 0x88);
    assert_eq!(bytes[4], 0x60);
    assert_eq!(&bytes[5..8], &[0, 0, 0]);
    assert_eq!(&bytes[24..26], &[0x02, 0x01]);
    let packet = Packet::new_unchecked(Ref::new(&bytes[..]));
    let parsed = Icmpv6Repr::parse_ref(
        &mock_ip_addr_2(),
        &mock_ip_addr_1(),
        &packet,
        &ChecksumCapabilities::default(),
    );
    assert_eq!(parsed, Ok(repr));
}

#[test]
fn ndisc_router_advert_with_all_options_roundtrip() {
    let repr = Icmpv6Repr::Ndisc(Repr::RouterAdvert {
        hop_limit: 255,
        flags: RouterFlags::other(),
        router_lifetime: Duration::from_secs(1800),
        reachable_time: Duration::from_millis(30000),
        retrans_time: Duration::from_millis(1000),
        lladdr: MaybeAddr::Present(EthernetAddress::new(0x02, 1, 2, 3, 4, 5).into()),
        mtu: Maybe::Just(1500),
        prefix_info: Maybe::Just(PrefixInformation {
            prefix_len: 64,
            flags: PrefixInfoFlags::on_link(),
            valid_lifetime: Duration::from_secs(86400),
            preferred_lifetime: Duration::from_secs(14400),
            prefix: Ipv6Address::new(0x2001, 0xdb8, 0, 0, 0, 0, 0, 0),
        }),
    });
    assert_eq!(repr.buffer_len(), 16 + 8 + 8 + 32);
    let mut bytes = vec![0u8; repr.buffer_len()];
    let mut packet = Packet::new_unchecked(&mut bytes[..]);
    repr.emit(&mock_ip_addr_1(), &mock_ip_addr_2(), &mut packet, &ChecksumCapabilities::default());
    let packet = Packet::new_unchecked(Ref::new(&bytes[..]));
    let parsed = Icmpv6Repr::parse_ref(
        &mock_ip_addr_1(),
        &mock_ip_addr_2(),
        &packet,
        &ChecksumCapabilities::default(),
    );
    assert_eq!(parsed, Ok(repr));
}

#[test]
fn ndisc_redirect_with_header_roundtrip() {
    let data = [0u8; 8];
    let repr = Icmpv6Repr::Ndisc(Repr::Redirect {
        target_addr: mock_ip_addr_1(),
        dest_addr: mock_ip_addr_2(),
        lladdr: MaybeAddr::Absent,
        redirected_hdr: MaybeRedirected::Present(RedirectedHeader {
            header: Ipv6Repr {
                src_addr: mock_ip_addr_1(),
                dst_addr: mock_ip_addr_2(),
                next_header: IpProtocol::Udp,
                payload_len: 8,
                hop_limit: 64,
            },
            data: &data,
        }),
    });
    assert_eq!(repr.buffer_len(), 40 + 56);
    let mut bytes = vec![0u8; repr.buffer_len()];
    let mut packet = Packet::new_unchecked(&mut bytes[..]);
    repr.emit(&mock_ip_addr_1(), &mock_ip_addr_2(), &mut packet, &ChecksumCapabilities::default());
    let packet = Packet::new_unchecked(Ref::new(&bytes[..]));
    let parsed = Icmpv6Repr::parse_ref(
        &mock_ip_addr_1(),
        &mock_ip_addr_2(),
        &packet,
        &ChecksumCapabilities::default(),
    );
    assert_eq!(parsed, Ok(repr));
}

#[test]
fn ndisc_malformed_option_fails_the_message() {
    let mut bytes = ROUTER_ADVERT_BYTES;
    bytes[17] = 0x00;
    let packet = Packet::new_unchecked(Ref::new(&bytes[..]));
    assert!(Repr::parse(&packet).is_err());
}

#[test]
fn ndisc_unparsable_option_is_passed_over() {
    let mut bytes = [0u8; 16];
    bytes[0] = 0x85;
    bytes[8] = 0x03;
    bytes[9] = 0x01;
    let packet = Packet::new_unchecked(Ref::new(&bytes[..]));
    assert!(Repr::parse(&packet).is_err());
    let mut bytes = [0u8; 24];
    bytes[0] = 0x85;
    bytes[8] = 0x05;
    bytes[9] = 0x02;
    let packet = Packet::new_unchecked(Ref::new(&bytes[..]));
    assert_eq!(Repr::parse(&packet), Ok(Repr::RouterSolicit { lladdr: MaybeAddr::Absent }));
}

#[test]
fn ndisc_flags_from_bits_truncate() {
    assert_eq!(RouterFlags::from_bits_truncate(0xff), RouterFlags::managed() | RouterFlags::other());
    assert_eq!(
        NeighborFlags::from_bits_truncate(0xff),
        NeighborFlags::router() | NeighborFlags::solicited() | NeighborFlags::override_()
    );
    assert_eq!(RouterFlags::from_bits_truncate(0x3f), RouterFlags::empty());
}

#[test]
fn ndisc_redirect_with_unaligned_header_roundtrip() {
    let data = [0xa5u8; 12];
    let repr = Icmpv6Repr::Ndisc(Repr::Redirect {
        target_addr: mock_ip_addr_1(),
        dest_addr: mock_ip_addr_2(),
        lladdr: MaybeAddr::Absent,
        redirected_hdr: MaybeRedirected::Present(RedirectedHeader {
            header: Ipv6Repr {
                src_addr: mock_ip_addr_1(),
                dst_addr: mock_ip_addr_2(),
                next_header: IpProtocol::Udp,
                payload_len: 12,
                hop_limit: 64,
            },
            data: &data,
        }),
    });
    assert_eq!(repr.buffer_len(), 40 + 64);
    let mut bytes = vec![0u8; repr.buffer_len()];
    let mut packet = Packet::new_unchecked(&mut bytes[..]);
    repr.emit(&mock_ip_addr_1(), &mock_ip_addr_2(), &mut packet, &ChecksumCapabilities::default());
    assert_eq!(bytes[41], 8);
    assert_eq!(&bytes[88..100], &data[..]);
    assert_eq!(&bytes[100..104], &[0u8; 4][..]);
    let packet = Packet::new_unchecked(Ref::new(&bytes[..]));
    assert!(packet.verify_checksum(&mock_ip_addr_1(), &mock_ip_addr_2()));
    let parsed = Icmpv6Repr::parse_ref(
        &mock_ip_addr_1(),
        &mock_ip_addr_2(),
        &packet,
        &ChecksumCapabilities::default(),
    );
    assert_eq!(parsed, Ok(repr));
}
