//! Protocol numbers shared by the IP versions.

use vstd::prelude::*;

verus! {

/// IP datagram encapsulated protocol.
#[derive(Debug, Clone, Copy, PartialEq, Eq, PartialOrd, Ord, Hash, Structural)]
pub enum IpProtocol {
    /// IPv6 hop-by-hop options.
    HopByHop,
    /// Internet Control Message Protocol.
    Icmp,
    /// Internet Group Management Protocol.
    Igmp,
    /// Transmission Control Protocol.
    Tcp,
    /// User Datagram Protocol.
    Udp,
    /// IPv6 routing header.
    Ipv6Route,
    /// IPv6 fragment header.
    Ipv6Frag,
    /// IPsec encapsulating security payload.
    IpSecEsp,
    /// IPsec authentication header.
    IpSecAh,
    /// ICMP for IPv6.
    Icmpv6,
    /// No next header.
    Ipv6NoNxt,
    /// IPv6 destination options.
    Ipv6Opts,
    /// A value with no name of its own.
    Unknown(u8),
}

impl IpProtocol {
    /// The IpProtocol that a raw value denotes.
    pub open spec fn from_raw(v: u8) -> IpProtocol {
        if v == 0x00 {
            IpProtocol::HopByHop
        } else if v == 0x01 {
            IpProtocol::Icmp
        } else if v == 0x02 {
            IpProtocol::Igmp
        } else if v == 0x06 {
            IpProtocol::Tcp
        } else if v == 0x11 {
            IpProtocol::Udp
        } else if v == 0x2b {
            IpProtocol::Ipv6Route
        } else if v == 0x2c {
            IpProtocol::Ipv6Frag
        } else if v == 0x32 {
            IpProtocol::IpSecEsp
        } else if v == 0x33 {
            IpProtocol::IpSecAh
        } else if v == 0x3a {
            IpProtocol::Icmpv6
        } else if v == 0x3b {
            IpProtocol::Ipv6NoNxt
        } else if v == 0x3c {
            IpProtocol::Ipv6Opts
        } else {
            IpProtocol::Unknown(v)
        }
    }

    /// The raw value of a IpProtocol.
    pub open spec fn raw(self) -> u8 {
        match self {
            IpProtocol::HopByHop => 0x00,
            IpProtocol::Icmp => 0x01,
            IpProtocol::Igmp => 0x02,
            IpProtocol::Tcp => 0x06,
            IpProtocol::Udp => 0x11,
            IpProtocol::Ipv6Route => 0x2b,
            IpProtocol::Ipv6Frag => 0x2c,
            IpProtocol::IpSecEsp => 0x32,
            IpProtocol::IpSecAh => 0x33,
            IpProtocol::Icmpv6 => 0x3a,
            IpProtocol::Ipv6NoNxt => 0x3b,
            IpProtocol::Ipv6Opts => 0x3c,
            IpProtocol::Unknown(v) => v,
        }
    }

    /// The code table of the wire format, over every code `v`: each named
    /// value is written as the code assigned to it, that code and no other
    /// reads as it, and a code with no name reads as `Unknown` of itself.
    pub proof fn lemma_codes(v: u8)
        ensures
            IpProtocol::HopByHop.raw() == 0x00,
            IpProtocol::Icmp.raw() == 0x01,
            IpProtocol::Igmp.raw() == 0x02,
            IpProtocol::Tcp.raw() == 0x06,
            IpProtocol::Udp.raw() == 0x11,
            IpProtocol::Ipv6Route.raw() == 0x2b,
            IpProtocol::Ipv6Frag.raw() == 0x2c,
            IpProtocol::IpSecEsp.raw() == 0x32,
            IpProtocol::IpSecAh.raw() == 0x33,
            IpProtocol::Icmpv6.raw() == 0x3a,
            IpProtocol::Ipv6NoNxt.raw() == 0x3b,
            IpProtocol::Ipv6Opts.raw() == 0x3c,
            (IpProtocol::from_raw(v) == IpProtocol::HopByHop) <==> v == 0x00,
            (IpProtocol::from_raw(v) == IpProtocol::Icmp) <==> v == 0x01,
            (IpProtocol::from_raw(v) == IpProtocol::Igmp) <==> v == 0x02,
            (IpProtocol::from_raw(v) == IpProtocol::Tcp) <==> v == 0x06,
            (IpProtocol::from_raw(v) == IpProtocol::Udp) <==> v == 0x11,
            (IpProtocol::from_raw(v) == IpProtocol::Ipv6Route) <==> v == 0x2b,
            (IpProtocol::from_raw(v) == IpProtocol::Ipv6Frag) <==> v == 0x2c,
            (IpProtocol::from_raw(v) == IpProtocol::IpSecEsp) <==> v == 0x32,
            (IpProtocol::from_raw(v) == IpProtocol::IpSecAh) <==> v == 0x33,
            (IpProtocol::from_raw(v) == IpProtocol::Icmpv6) <==> v == 0x3a,
            (IpProtocol::from_raw(v) == IpProtocol::Ipv6NoNxt) <==> v == 0x3b,
            (IpProtocol::from_raw(v) == IpProtocol::Ipv6Opts) <==> v == 0x3c,
            v != 0x00 && v != 0x01 && v != 0x02 && v != 0x06 && v != 0x11 && v != 0x2b && v != 0x2c && v != 0x32 && v != 0x33 && v != 0x3a && v != 0x3b && v != 0x3c ==> IpProtocol::from_raw(v) == IpProtocol::Unknown(v),
    {
    }

    /// A value is canonical when it is what its own raw value denotes; only an
    /// `Unknown` that carries a named value is not.
    pub open spec fn is_canonical(self) -> bool {
        IpProtocol::from_raw(self.raw()) == self
    }

    /// Reading back the raw value of what a raw value denotes gives that value.
    pub proof fn lemma_raw_from_raw(v: u8)
        ensures
            IpProtocol::from_raw(v).raw() == v,
            IpProtocol::from_raw(v).is_canonical(),
    {
    }
}

impl From<u8> for IpProtocol {
    fn from(v: u8) -> (r: IpProtocol) {
        match v {
            0x00 => IpProtocol::HopByHop,
            0x01 => IpProtocol::Icmp,
            0x02 => IpProtocol::Igmp,
            0x06 => IpProtocol::Tcp,
            0x11 => IpProtocol::Udp,
            0x2b => IpProtocol::Ipv6Route,
            0x2c => IpProtocol::Ipv6Frag,
            0x32 => IpProtocol::IpSecEsp,
            0x33 => IpProtocol::IpSecAh,
            0x3a => IpProtocol::Icmpv6,
            0x3b => IpProtocol::Ipv6NoNxt,
            0x3c => IpProtocol::Ipv6Opts,
            _ => IpProtocol::Unknown(v),
        }
    }
}

impl vstd::std_specs::convert::FromSpecImpl<u8> for IpProtocol {
    open spec fn obeys_from_spec() -> bool {
        true
    }

    open spec fn from_spec(v: u8) -> IpProtocol {
        IpProtocol::from_raw(v)
    }
}

impl From<IpProtocol> for u8 {
    fn from(v: IpProtocol) -> (r: u8) {
        match v {
            IpProtocol::HopByHop => 0x00,
            IpProtocol::Icmp => 0x01,
            IpProtocol::Igmp => 0x02,
            IpProtocol::Tcp => 0x06,
            IpProtocol::Udp => 0x11,
            IpProtocol::Ipv6Route => 0x2b,
            IpProtocol::Ipv6Frag => 0x2c,
            IpProtocol::IpSecEsp => 0x32,
            IpProtocol::IpSecAh => 0x33,
            IpProtocol::Icmpv6 => 0x3a,
            IpProtocol::Ipv6NoNxt => 0x3b,
            IpProtocol::Ipv6Opts => 0x3c,
            IpProtocol::Unknown(x) => x,
        }
    }
}

impl vstd::std_specs::convert::FromSpecImpl<IpProtocol> for u8 {
    open spec fn obeys_from_spec() -> bool {
        true
    }

    open spec fn from_spec(v: IpProtocol) -> u8 {
        v.raw()
    }
}

} // verus!
