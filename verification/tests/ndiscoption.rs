use smoltcp_wire::buf::Ref;
use smoltcp_wire::error::Error;
use smoltcp_wire::ethernet::Address as EthernetAddress;
use smoltcp_wire::hardware::RawHardwareAddress;
use smoltcp_wire::ipv6::Address as Ipv6Address;
use smoltcp_wire::ip::IpProtocol;
use smoltcp_wire::ipv6::Repr as Ipv6Repr;
use smoltcp_wire::ndiscoption::{NdiscOption, PrefixInfoFlags, PrefixInformation, RedirectedHeader, Repr, Type, DATA};
use smoltcp_wire::time::Duration;

static PREFIX_OPT_BYTES: [u8; 32] = [
    0x03, 0x04, 0x40, 0xc0, 0x00, 0x00, 0x03, 0x84, 0x00, 0x00, 0x03, 0xe8, 0x00, 0x00, 0x00,
    0x00, 0xfe, 0x80, 0x00, 0x00, 0x00, 0x00, 0x00, 0x00, 0x00, 0x00, 0x00, 0x00, 0x00, 0x00,
    0x00, 0x01,
];

#[test]
fn ndiscoption_ghost_field_is_not_observable() {
    let bytes = [0u8; 8];
    let opt = NdiscOption::new_unchecked(&bytes[..]);
    let s = format!("{opt:?}");
    assert!(!s.contains("Ghost"), "ghost leaked into Debug: {s}");
    assert!(s.starts_with("NdiscOption { buffer: "), "Debug shape changed: {s}");
}

#[test]
fn ndiscoption_test_deconstruct() {
    let opt = NdiscOption::new_unchecked(&PREFIX_OPT_BYTES[..]);
    assert_eq!(opt.option_type(), Type::PrefixInformation);
    assert_eq!(opt.data_len(), 4);
    assert_eq!(opt.prefix_len(), 64);
    assert_eq!(opt.prefix_flags(), PrefixInfoFlags::on_link() | PrefixInfoFlags::addrconf());
    assert_eq!(opt.valid_lifetime(), Duration::from_secs(900));
    assert_eq!(opt.preferred_lifetime(), Duration::from_secs(1000));
    assert_eq!(opt.prefix(), Ipv6Address::new(0xfe80, 0, 0, 0, 0, 0, 0, 1));
}

#[test]
fn ndiscoption_test_construct() {
    let mut bytes = [0x00; 32];
    let mut opt = NdiscOption::new_unchecked(&mut bytes[..]);
    opt.set_option_type(Type::PrefixInformation);
    opt.set_data_len(4);
    opt.set_prefix_len(64);
    opt.set_prefix_flags(PrefixInfoFlags::on_link() | PrefixInfoFlags::addrconf());
    opt.set_valid_lifetime(Duration::from_secs(900));
    opt.set_preferred_lifetime(Duration::from_secs(1000));
    opt.set_prefix(Ipv6Address::new(0xfe80, 0, 0, 0, 0, 0, 0, 1));
    assert_eq!(&PREFIX_OPT_BYTES[..], &*opt.into_inner());
}

#[test]
fn test_short_packet() {
    assert_eq!(NdiscOption::new_checked(&[0x00, 0x00]), Err(Error));
    let bytes = [0x03, 0x01, 0x00, 0x00, 0x00, 0x00, 0x00, 0x00];
    assert_eq!(NdiscOption::new_checked(&bytes), Err(Error));
}

#[test]
fn test_repr_parse_link_layer_opt_ethernet() {
    let mut bytes = [0x01, 0x01, 0x54, 0x52, 0x00, 0x12, 0x23, 0x34];
    let addr = EthernetAddress::from_octets([0x54, 0x52, 0x00, 0x12, 0x23, 0x34]);
    {
        assert_eq!(
            Repr::parse(&NdiscOption::new_unchecked(Ref::new(&bytes))),
            Ok(Repr::SourceLinkLayerAddr(addr.into()))
        );
    }
    bytes[0] = 0x02;
    {
        assert_eq!(
            Repr::parse(&NdiscOption::new_unchecked(Ref::new(&bytes))),
            Ok(Repr::TargetLinkLayerAddr(addr.into()))
        );
    }
}

#[test]
fn test_repr_parse_prefix_info() {
    let repr = Repr::PrefixInformation(PrefixInformation {
        prefix_len: 64,
        flags: PrefixInfoFlags::on_link() | PrefixInfoFlags::addrconf(),
        valid_lifetime: Duration::from_secs(900),
        preferred_lifetime: Duration::from_secs(1000),
        prefix: Ipv6Address::new(0xfe80, 0, 0, 0, 0, 0, 0, 1),
    });
    assert_eq!(Repr::parse(&NdiscOption::new_unchecked(Ref::new(&PREFIX_OPT_BYTES))), Ok(repr));
}

#[test]
fn test_repr_emit_prefix_info() {
    let mut bytes = [0x2a; 32];
    let repr = Repr::PrefixInformation(PrefixInformation {
        prefix_len: 64,
        flags: PrefixInfoFlags::on_link() | PrefixInfoFlags::addrconf(),
        valid_lifetime: Duration::from_secs(900),
        preferred_lifetime: Duration::from_secs(1000),
        prefix: Ipv6Address::new(0xfe80, 0, 0, 0, 0, 0, 0, 1),
    });
    let mut opt = NdiscOption::new_unchecked(&mut bytes);
    repr.emit(&mut opt);
    assert_eq!(&opt.into_inner()[..], &PREFIX_OPT_BYTES[..]);
}

#[test]
fn test_repr_parse_mtu() {
    let bytes = [0x05, 0x01, 0x00, 0x00, 0x00, 0x00, 0x05, 0xdc];
    assert_eq!(Repr::parse(&NdiscOption::new_unchecked(Ref::new(&bytes))), Ok(Repr::Mtu(1500)));
}

#[test]
fn ndiscoption_link_layer_roundtrip() {
    let addr: RawHardwareAddress = EthernetAddress::new(0x02, 0x11, 0x22, 0x33, 0x44, 0x55).into();
    let repr = Repr::TargetLinkLayerAddr(addr);
    assert_eq!(repr.buffer_len(), 8);
    let mut bytes = [0u8; 8];
    let mut opt = NdiscOption::new_unchecked(&mut bytes);
    repr.emit(&mut opt);
    assert_eq!(bytes, [0x02, 0x01, 0x02, 0x11, 0x22, 0x33, 0x44, 0x55]);
    assert_eq!(Repr::parse(&NdiscOption::new_unchecked(Ref::new(&bytes))), Ok(repr));
}

#[test]
fn ndiscoption_mtu_emit() {
    let mut bytes = [0xffu8; 8];
    let mut opt = NdiscOption::new_unchecked(&mut bytes);
    Repr::Mtu(1280).emit(&mut opt);
    assert_eq!(bytes, [0x05, 0x01, 0xff, 0xff, 0x00, 0x00, 0x05, 0x00]);
}

#[test]
fn ndiscoption_unknown_option_zero_length_is_refused() {
    let bytes = [0x09, 0x00, 0, 0, 0, 0, 0, 0];
    assert_eq!(NdiscOption::new_checked(&bytes), Err(Error));
}

#[test]
fn ndiscoption_prefix_is_valid_for_autoconf() {
    let info = PrefixInformation {
        prefix_len: 64,
        flags: PrefixInfoFlags::on_link() | PrefixInfoFlags::addrconf(),
        valid_lifetime: Duration::from_secs(900),
        preferred_lifetime: Duration::from_secs(1000),
        prefix: Ipv6Address::new(0x2001, 0xdb8, 0, 0, 0, 0, 0, 0),
    };
    assert!(!info.is_valid_prefix_info());
    let info = PrefixInformation { preferred_lifetime: Duration::from_secs(600), ..info };
    assert!(info.is_valid_prefix_info());
}

#[test]
fn ndiscoption_redirected_header_pads_to_eight() {
    let data = [0x11u8; 12];
    let repr = Repr::RedirectedHeader(RedirectedHeader {
        header: Ipv6Repr {
            src_addr: Ipv6Address::new(0xfe80, 0, 0, 0, 0, 0, 0, 1),
            dst_addr: Ipv6Address::new(0xfe80, 0, 0, 0, 0, 0, 0, 2),
            next_header: IpProtocol::Udp,
            payload_len: 12,
            hop_limit: 64,
        },
        data: &data,
    });
    assert_eq!(repr.buffer_len(), 64);
    let mut bytes = [0xffu8; 64];
    let mut opt = NdiscOption::new_unchecked(&mut bytes[..]);
    repr.emit(&mut opt);
    assert_eq!(bytes[0], 4);
    assert_eq!(bytes[1], 8);
    assert_eq!(&bytes[2..8], &[0u8; 6][..]);
    assert_eq!(bytes[8] >> 4, 6);
    assert_eq!(&bytes[48..60], &data[..]);
    assert_eq!(&bytes[60..64], &[0xffu8; 4][..]);
    let opt = NdiscOption::new_checked(&bytes[..]).unwrap();
    assert_eq!(Repr::parse(&NdiscOption::new_unchecked(Ref::new(&bytes[..]))), Ok(repr));
    assert_eq!(opt.data_len(), 8);
}

#[test]
fn ndiscoption_data_field() {
    assert_eq!(DATA(1), 2..8);
    assert_eq!(DATA(4), 2..32);
}
