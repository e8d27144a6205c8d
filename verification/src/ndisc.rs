//! Neighbor Discovery messages, carried in ICMPv6 packets: router
//! solicitations and advertisements, neighbor solicitations and
//! advertisements, and redirects.

use vstd::prelude::*;
use crate::buf::{be16, be32, put_be16, put_be32, splice, Bytes, BytesMut, Ref, read_u16_at, read_u32_at};
use crate::error::{Error, Result};
use crate::hardware::RawHardwareAddress;
use crate::icmpv6::{Message, Packet, len_ok as packet_len_ok};
use crate::ipv6::Address as Ipv6Address;
use crate::mld::read_ipv6_addr_at;
use crate::ndiscoption::{NdiscOption, PrefixInformation, RedirectedHeader, Repr as NdiscOptionRepr};
use crate::ndiscoption::{lladdr_len, round8, len_ok as option_len_ok, parse_ok as option_parse_ok};
use crate::ndiscoption::emit_parses_back as option_parses_back;
use crate::time::Duration;

verus! {

/// The flags of a Router Advertisement.
#[derive(Debug, Clone, Copy, PartialEq, Eq, PartialOrd, Ord, Hash, Structural)]
pub struct RouterFlags {
    bits: u8,
}

impl RouterFlags {
    /// The octet the flags are stored as.
    pub closed spec fn bits_spec(self) -> u8 {
        self.bits
    }

    /// The flags stored as the octet `bits`.
    pub closed spec fn spec_from_bits(bits: u8) -> RouterFlags {
        RouterFlags { bits }
    }

    /// Flags are their octet.
    pub proof fn lemma_bits(f: RouterFlags, bits: u8)
        ensures
            RouterFlags::spec_from_bits(f.bits_spec()) == f,
            RouterFlags::spec_from_bits(bits).bits_spec() == bits,
    {
    }

    /// The managed address configuration flag.
    pub fn managed() -> (r: RouterFlags)
        ensures
            r.bits_spec() == 0x80,
    {
        RouterFlags { bits: 0x80 }
    }

    /// The other configuration flag.
    pub fn other() -> (r: RouterFlags)
        ensures
            r.bits_spec() == 0x40,
    {
        RouterFlags { bits: 0x40 }
    }

    /// No flag.
    pub fn empty() -> (r: RouterFlags)
        ensures
            r.bits_spec() == 0,
    {
        RouterFlags { bits: 0 }
    }

    /// The octet the flags are stored as.
    pub fn bits(&self) -> (r: u8)
        ensures
            r == self.bits_spec(),
    {
        self.bits
    }

    /// The flags of an octet, with the bits that name no flag dropped.
    pub fn from_bits_truncate(bits: u8) -> (r: RouterFlags)
        ensures
            r.bits_spec() == bits / 64 * 64,
    {
        proof {
            assert(bits & 0xc0 == bits / 64 * 64) by (bit_vector);
        }
        RouterFlags { bits: bits & 0xc0 }
    }

    /// Whether every flag of `other` is set here.
    pub fn contains(&self, other: RouterFlags) -> (r: bool)
        ensures
            r == (self.bits_spec() & other.bits_spec() == other.bits_spec()),
    {
        self.bits & other.bits == other.bits
    }
}

impl core::ops::BitOr for RouterFlags {
    type Output = RouterFlags;

    fn bitor(self, rhs: RouterFlags) -> (r: RouterFlags) {
        RouterFlags { bits: self.bits | rhs.bits }
    }
}

impl vstd::std_specs::ops::BitOrSpecImpl for RouterFlags {
    open spec fn obeys_bitor_spec() -> bool {
        true
    }

    open spec fn bitor_req(self, rhs: RouterFlags) -> bool {
        true
    }

    open spec fn bitor_spec(self, rhs: RouterFlags) -> RouterFlags {
        RouterFlags::spec_from_bits(self.bits_spec() | rhs.bits_spec())
    }
}

/// The flags of a Neighbor Advertisement.
#[derive(Debug, Clone, Copy, PartialEq, Eq, PartialOrd, Ord, Hash, Structural)]
pub struct NeighborFlags {
    bits: u8,
}

impl NeighborFlags {
    /// The octet the flags are stored as.
    pub closed spec fn bits_spec(self) -> u8 {
        self.bits
    }

    /// The flags stored as the octet `bits`.
    pub closed spec fn spec_from_bits(bits: u8) -> NeighborFlags {
        NeighborFlags { bits }
    }

    /// Flags are their octet.
    pub proof fn lemma_bits(f: NeighborFlags, bits: u8)
        ensures
            NeighborFlags::spec_from_bits(f.bits_spec()) == f,
            NeighborFlags::spec_from_bits(bits).bits_spec() == bits,
    {
    }

    /// The sender is a router.
    pub fn router() -> (r: NeighborFlags)
        ensures
            r.bits_spec() == 0x80,
    {
        NeighborFlags { bits: 0x80 }
    }

    /// The advertisement answers a solicitation.
    pub fn solicited() -> (r: NeighborFlags)
        ensures
            r.bits_spec() == 0x40,
    {
        NeighborFlags { bits: 0x40 }
    }

    /// The advertisement overrides a cached link-layer address.
    pub fn override_() -> (r: NeighborFlags)
        ensures
            r.bits_spec() == 0x20,
    {
        NeighborFlags { bits: 0x20 }
    }

    /// No flag.
    pub fn empty() -> (r: NeighborFlags)
        ensures
            r.bits_spec() == 0,
    {
        NeighborFlags { bits: 0 }
    }

    /// The octet the flags are stored as.
    pub fn bits(&self) -> (r: u8)
        ensures
            r == self.bits_spec(),
    {
        self.bits
    }

    /// The flags of an octet, with the bits that name no flag dropped.
    pub fn from_bits_truncate(bits: u8) -> (r: NeighborFlags)
        ensures
            r.bits_spec() == bits / 32 * 32,
    {
        proof {
            assert(bits & 0xe0 == bits / 32 * 32) by (bit_vector);
        }
        NeighborFlags { bits: bits & 0xe0 }
    }

    /// Whether every flag of `other` is set here.
    pub fn contains(&self, other: NeighborFlags) -> (r: bool)
        ensures
            r == (self.bits_spec() & other.bits_spec() == other.bits_spec()),
    {
        self.bits & other.bits == other.bits
    }
}

impl core::ops::BitOr for NeighborFlags {
    type Output = NeighborFlags;

    fn bitor(self, rhs: NeighborFlags) -> (r: NeighborFlags) {
        NeighborFlags { bits: self.bits | rhs.bits }
    }
}

impl vstd::std_specs::ops::BitOrSpecImpl for NeighborFlags {
    open spec fn obeys_bitor_spec() -> bool {
        true
    }

    open spec fn bitor_req(self, rhs: NeighborFlags) -> bool {
        true
    }

    open spec fn bitor_spec(self, rhs: NeighborFlags) -> NeighborFlags {
        NeighborFlags::spec_from_bits(self.bits_spec() | rhs.bits_spec())
    }
}

/// An optional value of a message.
#[derive(Debug, PartialEq, Eq, Clone, Copy)]
pub enum Maybe<T> {
    Nothing,
    Just(T),
}

impl<T: Copy> Maybe<T> {
    /// Whether a value is present.
    pub fn is_present(&self) -> (r: bool)
        ensures
            r == (self is Just),
    {
        match self {
            Maybe::Just(_) => true,
            Maybe::Nothing => false,
        }
    }

    /// As an `Option`.
    pub fn as_option(&self) -> (r: Option<T>)
        ensures
            r == (match *self {
                Maybe::Just(v) => Some(v),
                Maybe::Nothing => None,
            }),
    {
        match *self {
            Maybe::Just(v) => Some(v),
            Maybe::Nothing => None,
        }
    }

    /// From an `Option`.
    pub fn from_option(value: Option<T>) -> (r: Maybe<T>)
        ensures
            r == (match value {
                Some(v) => Maybe::Just(v),
                None => Maybe::Nothing,
            }),
    {
        match value {
            Some(v) => Maybe::Just(v),
            None => Maybe::Nothing,
        }
    }
}

/// An optional link-layer address of a message.
#[derive(Debug, PartialEq, Eq, Clone, Copy)]
pub enum MaybeAddr {
    Absent,
    Present(RawHardwareAddress),
}

impl MaybeAddr {
    /// Whether an address is present.
    pub fn is_present(&self) -> (r: bool)
        ensures
            r == (self is Present),
    {
        match self {
            MaybeAddr::Present(_) => true,
            MaybeAddr::Absent => false,
        }
    }

    /// As an `Option`.
    pub fn as_option(&self) -> (r: Option<RawHardwareAddress>)
        ensures
            r == (match *self {
                MaybeAddr::Present(a) => Some(a),
                MaybeAddr::Absent => None,
            }),
    {
        match *self {
            MaybeAddr::Present(a) => Some(a),
            MaybeAddr::Absent => None,
        }
    }

    /// From an `Option`.
    pub fn from_option(value: Option<RawHardwareAddress>) -> (r: MaybeAddr)
        ensures
            r == (match value {
                Some(a) => MaybeAddr::Present(a),
                None => MaybeAddr::Absent,
            }),
    {
        match value {
            Some(a) => MaybeAddr::Present(a),
            None => MaybeAddr::Absent,
        }
    }
}

/// An optional redirected header of a Redirect message.
#[derive(Debug, PartialEq, Eq, Clone, Copy)]
pub enum MaybeRedirected<'a> {
    Absent,
    Present(RedirectedHeader<'a>),
}

impl<'a> MaybeRedirected<'a> {
    /// Whether a redirected header is present.
    pub fn is_present(&self) -> (r: bool)
        ensures
            r == (self is Present),
    {
        match self {
            MaybeRedirected::Present(_) => true,
            MaybeRedirected::Absent => false,
        }
    }

    /// As an `Option`.
    pub fn as_option(&self) -> (r: Option<RedirectedHeader<'a>>)
        ensures
            r == (match *self {
                MaybeRedirected::Present(h) => Some(h),
                MaybeRedirected::Absent => None,
            }),
    {
        match *self {
            MaybeRedirected::Present(h) => Some(h),
            MaybeRedirected::Absent => None,
        }
    }

    /// From an `Option`.
    pub fn from_option(value: Option<RedirectedHeader<'a>>) -> (r: MaybeRedirected<'a>)
        ensures
            r == (match value {
                Some(h) => MaybeRedirected::Present(h),
                None => MaybeRedirected::Absent,
            }),
    {
        match value {
            Some(h) => MaybeRedirected::Present(h),
            None => MaybeRedirected::Absent,
        }
    }
}

/// The whole seconds of a duration, keeping their low 16 bits.
pub open spec fn secs16(time: Duration) -> u16 {
    (time.micros() / 1000000) as u16
}

/// The whole milliseconds of a duration, keeping their low 32 bits.
pub open spec fn millis32(time: Duration) -> u32 {
    (time.micros() / 1000) as u32
}

/// Getters for the Neighbor Discovery message headers.
impl<T: Bytes> Packet<T> {
    /// Return the current hop limit field.
    pub fn current_hop_limit(&self) -> (r: u8)
        requires
            self.data().len() >= 5,
        ensures
            r == self.data()[4],
    {
        self.buffer_ref().as_bytes()[4]
    }

    /// Return the Router Advertisement flags, with the bits that name no
    /// flag dropped.
    pub fn router_flags(&self) -> (r: RouterFlags)
        requires
            self.data().len() >= 6,
        ensures
            r.bits_spec() == self.data()[5] / 64 * 64,
    {
        RouterFlags::from_bits_truncate(self.buffer_ref().as_bytes()[5])
    }

    /// Return the router lifetime field, in seconds.
    pub fn router_lifetime(&self) -> (r: Duration)
        requires
            self.data().len() >= 8,
        ensures
            r.micros() == be16(self.data(), 6) * 1000000,
    {
        let v = read_u16_at(self.buffer_ref().as_bytes(), 6);
        Duration::from_secs(v as u64)
    }

    /// Return the reachable time field, in milliseconds.
    pub fn reachable_time(&self) -> (r: Duration)
        requires
            self.data().len() >= 12,
        ensures
            r.micros() == be32(self.data(), 8) * 1000,
    {
        let v = read_u32_at(self.buffer_ref().as_bytes(), 8);
        Duration::from_millis(v as u64)
    }

    /// Return the retransmit time field, in milliseconds.
    pub fn retrans_time(&self) -> (r: Duration)
        requires
            self.data().len() >= 16,
        ensures
            r.micros() == be32(self.data(), 12) * 1000,
    {
        let v = read_u32_at(self.buffer_ref().as_bytes(), 12);
        Duration::from_millis(v as u64)
    }

    /// Return the target address field.
    pub fn target_addr(&self) -> (r: Ipv6Address)
        requires
            self.data().len() >= 24,
        ensures
            r == Ipv6Address::from_seq(self.data().subrange(8, 24)),
    {
        read_ipv6_addr_at(self.buffer_ref().as_bytes(), 8)
    }

    /// Return the Neighbor Advertisement flags, with the bits that name no
    /// flag dropped.
    pub fn neighbor_flags(&self) -> (r: NeighborFlags)
        requires
            self.data().len() >= 5,
        ensures
            r.bits_spec() == self.data()[4] / 32 * 32,
    {
        NeighborFlags::from_bits_truncate(self.buffer_ref().as_bytes()[4])
    }

    /// Return the destination address field.
    pub fn dest_addr(&self) -> (r: Ipv6Address)
        requires
            self.data().len() >= 40,
        ensures
            r == Ipv6Address::from_seq(self.data().subrange(24, 40)),
    {
        read_ipv6_addr_at(self.buffer_ref().as_bytes(), 24)
    }
}

/// Setters for the Neighbor Discovery message headers.
impl<T: BytesMut> Packet<T> {
    /// Set the current hop limit field.
    pub fn set_current_hop_limit(&mut self, value: u8)
        requires
            old(self).data().len() >= 5,
        ensures
            final(self).data() == old(self).data().update(4, value),
            final(self).ty() == old(self).ty(),
    {
        self.buffer_mut().set_byte(4, value);
    }

    /// Set the Router Advertisement flags.
    pub fn set_router_flags(&mut self, flags: RouterFlags)
        requires
            old(self).data().len() >= 6,
        ensures
            final(self).data() == old(self).data().update(5, flags.bits_spec()),
            final(self).ty() == old(self).ty(),
    {
        self.buffer_mut().set_byte(5, flags.bits());
    }

    /// Set the router lifetime field to the whole seconds of `value`, keeping
    /// their low 16 bits.
    pub fn set_router_lifetime(&mut self, value: Duration)
        requires
            old(self).data().len() >= 8,
        ensures
            final(self).data() == put_be16(old(self).data(), 6, secs16(value)),
            final(self).ty() == old(self).ty(),
    {
        let secs = value.secs() as u16;
        self.buffer_mut().set_u16(6, secs);
    }

    /// Set the reachable time field to the whole milliseconds of `value`,
    /// keeping their low 32 bits.
    pub fn set_reachable_time(&mut self, value: Duration)
        requires
            old(self).data().len() >= 12,
        ensures
            final(self).data() == put_be32(old(self).data(), 8, millis32(value)),
            final(self).ty() == old(self).ty(),
    {
        let millis = value.total_millis() as u32;
        self.buffer_mut().set_u32(8, millis);
    }

    /// Set the retransmit time field to the whole milliseconds of `value`,
    /// keeping their low 32 bits.
    pub fn set_retrans_time(&mut self, value: Duration)
        requires
            old(self).data().len() >= 16,
        ensures
            final(self).data() == put_be32(old(self).data(), 12, millis32(value)),
            final(self).ty() == old(self).ty(),
    {
        let millis = value.total_millis() as u32;
        self.buffer_mut().set_u32(12, millis);
    }

    /// Set the target address field.
    pub fn set_target_addr(&mut self, value: Ipv6Address)
        requires
            old(self).data().len() >= 24,
        ensures
            final(self).data() == splice(old(self).data(), 8, value@),
            final(self).ty() == old(self).ty(),
    {
        proof {
            Ipv6Address::lemma_view(value);
        }
        self.buffer_mut().copy_in(8, value.as_bytes());
    }

    /// Set the Neighbor Advertisement flags.
    pub fn set_neighbor_flags(&mut self, flags: NeighborFlags)
        requires
            old(self).data().len() >= 5,
        ensures
            final(self).data() == old(self).data().update(4, flags.bits_spec()),
            final(self).ty() == old(self).ty(),
    {
        self.buffer_mut().set_byte(4, flags.bits());
    }

    /// Set the destination address field.
    pub fn set_dest_addr(&mut self, value: Ipv6Address)
        requires
            old(self).data().len() >= 40,
        ensures
            final(self).data() == splice(old(self).data(), 24, value@),
            final(self).ty() == old(self).ty(),
    {
        proof {
            Ipv6Address::lemma_view(value);
        }
        self.buffer_mut().copy_in(24, value.as_bytes());
    }
}

/// The options area of a message whose fixed header is `h` octets: the
/// octets after it.
pub open spec fn options_area(s: Seq<u8>, h: int) -> Seq<u8> {
    s.subrange(h, s.len() as int)
}

/// The option at `off` in an options area: the octets from there on.
pub open spec fn option_at(p: Seq<u8>, off: int) -> Seq<u8> {
    p.subrange(off, p.len() as int)
}

/// Every option from `off` on is well-formed: it passes the option's own
/// length check, declares a nonzero length, and the next one starts where it
/// ends.
pub open spec fn options_ok(p: Seq<u8>, off: nat) -> bool
    decreases p.len() - off,
{
    if off >= p.len() {
        true
    } else {
        let q = option_at(p, off as int);
        if option_len_ok(q) && q[1] != 0 {
            options_ok(p, (off + q[1] * 8) as nat)
        } else {
            false
        }
    }
}

/// Walking the options from `off` on, the offset of the last one whose type
/// octet is `ty` and that parses; `found` when there is none.
pub open spec fn last_option(p: Seq<u8>, off: nat, ty: u8, found: Option<nat>) -> Option<nat>
    decreases p.len() - off,
{
    if off >= p.len() {
        found
    } else {
        let q = option_at(p, off as int);
        if option_len_ok(q) && q[1] != 0 {
            last_option(
                p,
                (off + q[1] * 8) as nat,
                ty,
                if q[0] == ty && option_parse_ok(q) {
                    Some(off)
                } else {
                    found
                },
            )
        } else {
            found
        }
    }
}

/// The link-layer address an option carries.
pub open spec fn lladdr_of(q: Seq<u8>) -> RawHardwareAddress {
    RawHardwareAddress::from_seq(q.subrange(2, 2 + lladdr_len(q)))
}

/// `lladdr` is what the options area `p` gives for the link-layer address
/// option of type `ty`: the last such option that parses, or none.
pub open spec fn addr_option(p: Seq<u8>, ty: u8, lladdr: MaybeAddr) -> bool {
    match last_option(p, 0, ty, None) {
        None => lladdr is Absent,
        Some(o) => lladdr == MaybeAddr::Present(lladdr_of(option_at(p, o as int))),
    }
}

/// `mtu` is what the options area `p` gives for the MTU option.
pub open spec fn mtu_option(p: Seq<u8>, mtu: Maybe<u32>) -> bool {
    match last_option(p, 0, 5, None) {
        None => mtu is Nothing,
        Some(o) => mtu == Maybe::Just(be32(option_at(p, o as int), 4)),
    }
}

/// `info` is what the options area `p` gives for the Prefix Information
/// option.
pub open spec fn prefix_option(p: Seq<u8>, info: Maybe<PrefixInformation>) -> bool {
    match last_option(p, 0, 3, None) {
        None => info is Nothing,
        Some(o) => info matches Maybe::Just(i) && NdiscOptionRepr::PrefixInformation(i).parsed_from(
            option_at(p, o as int),
        ),
    }
}

/// `hdr` is what the options area `p` gives for the Redirected Header
/// option.
pub open spec fn redirected_option(p: Seq<u8>, hdr: MaybeRedirected) -> bool {
    match last_option(p, 0, 4, None) {
        None => hdr is Absent,
        Some(o) => hdr matches MaybeRedirected::Present(h) && NdiscOptionRepr::RedirectedHeader(
            h,
        ).parsed_from(option_at(p, o as int)),
    }
}

/// The message type is a Neighbor Discovery one.
pub open spec fn is_ndisc(ty: Message) -> bool {
    ty is RouterSolicit || ty is RouterAdvert || ty is NeighborSolicit || ty is NeighborAdvert
        || ty is Redirect
}

/// Parsing the Neighbor Discovery message of type `ty` in `s` succeeds: the
/// packet holds its fixed header, and every option after it is well-formed.
pub open spec fn parse_ok(ty: Message, s: Seq<u8>) -> bool {
    &&& packet_len_ok(ty, s)
    &&& is_ndisc(ty)
    &&& options_ok(options_area(s, ty.header_len_spec()), 0)
}

/// A high-level representation of a Neighbor Discovery packet header.
#[derive(Debug, PartialEq, Eq, Clone, Copy)]
pub enum Repr<'a> {
    RouterSolicit { lladdr: MaybeAddr },
    RouterAdvert {
        hop_limit: u8,
        flags: RouterFlags,
        router_lifetime: Duration,
        reachable_time: Duration,
        retrans_time: Duration,
        lladdr: MaybeAddr,
        mtu: Maybe<u32>,
        prefix_info: Maybe<PrefixInformation>,
    },
    NeighborSolicit { target_addr: Ipv6Address, lladdr: MaybeAddr },
    NeighborAdvert { flags: NeighborFlags, target_addr: Ipv6Address, lladdr: MaybeAddr },
    Redirect {
        target_addr: Ipv6Address,
        dest_addr: Ipv6Address,
        lladdr: MaybeAddr,
        redirected_hdr: MaybeRedirected<'a>,
    },
}

impl<'a> Repr<'a> {
    /// This representation is what parsing the message `s` gives, when
    /// parsing succeeds.
    pub open spec fn parsed_from(self, s: Seq<u8>) -> bool {
        match self {
            Repr::RouterSolicit { lladdr } => s[0] == 0x85 && addr_option(options_area(s, 8), 1, lladdr),
            Repr::RouterAdvert {
                hop_limit,
                flags,
                router_lifetime,
                reachable_time,
                retrans_time,
                lladdr,
                mtu,
                prefix_info,
            } => {
                &&& s[0] == 0x86
                &&& hop_limit == s[4]
                &&& flags.bits_spec() == s[5] / 64 * 64
                &&& router_lifetime.micros() == be16(s, 6) * 1000000
                &&& reachable_time.micros() == be32(s, 8) * 1000
                &&& retrans_time.micros() == be32(s, 12) * 1000
                &&& addr_option(options_area(s, 16), 1, lladdr)
                &&& mtu_option(options_area(s, 16), mtu)
                &&& prefix_option(options_area(s, 16), prefix_info)
            },
            Repr::NeighborSolicit { target_addr, lladdr } => s[0] == 0x87 && target_addr
                == Ipv6Address::from_seq(s.subrange(8, 24)) && addr_option(options_area(s, 24), 1, lladdr),
            Repr::NeighborAdvert { flags, target_addr, lladdr } => s[0] == 0x88 && flags.bits_spec()
                == s[4] / 32 * 32 && target_addr == Ipv6Address::from_seq(s.subrange(8, 24))
                && addr_option(options_area(s, 24), 2, lladdr),
            Repr::Redirect { target_addr, dest_addr, lladdr, redirected_hdr } => {
                &&& s[0] == 0x89
                &&& target_addr == Ipv6Address::from_seq(s.subrange(8, 24))
                &&& dest_addr == Ipv6Address::from_seq(s.subrange(24, 40))
                &&& addr_option(options_area(s, 40), 2, lladdr)
                &&& redirected_option(options_area(s, 40), redirected_hdr)
            },
        }
    }

    /// Parse a Neighbor Discovery packet and return a high-level
    /// representation. Of each kind of option the last one that parses is
    /// kept; an option that does not parse is passed over, but one that is
    /// not well-formed fails the whole message.
    pub fn parse(packet: &Packet<Ref<'a>>) -> (r: Result<Repr<'a>>)
        ensures
            r is Ok <==> parse_ok(packet.ty(), packet.data()),
            r matches Ok(x) ==> x.parsed_from(packet.data().update(0, packet.ty().raw())),
    {
        match packet.checked_len() {
            Ok(_) => {},
            Err(e) => return Err(e),
        }
        let payload = packet.payload();
        let ghost p = payload@;
        assert(options_area(packet.data(), packet.ty().header_len_spec()) =~= p);
        let n = payload.len();
        let mut src_ll_addr: Option<RawHardwareAddress> = None;
        let mut target_ll_addr: Option<RawHardwareAddress> = None;
        let mut mtu: Option<u32> = None;
        let mut prefix_info: Option<PrefixInformation> = None;
        let mut redirected_hdr: Option<RedirectedHeader<'a>> = None;
        let ghost mut src_at: Option<nat> = None;
        let ghost mut target_at: Option<nat> = None;
        let ghost mut mtu_at: Option<nat> = None;
        let ghost mut prefix_at: Option<nat> = None;
        let ghost mut redirected_at: Option<nat> = None;
        let mut offset: usize = 0;
        while offset < n
            invariant
                n == p.len(),
                payload@ == p,
                options_area(packet.data(), packet.ty().header_len_spec()) == p,
                packet_len_ok(packet.ty(), packet.data()),
                offset <= n,
                options_ok(p, 0) == options_ok(p, offset as nat),
                last_option(p, 0, 1, None) == last_option(p, offset as nat, 1, src_at),
                last_option(p, 0, 2, None) == last_option(p, offset as nat, 2, target_at),
                last_option(p, 0, 5, None) == last_option(p, offset as nat, 5, mtu_at),
                last_option(p, 0, 3, None) == last_option(p, offset as nat, 3, prefix_at),
                last_option(p, 0, 4, None) == last_option(p, offset as nat, 4, redirected_at),
                match src_at {
                    None => src_ll_addr is None,
                    Some(o) => src_ll_addr == Some(lladdr_of(option_at(p, o as int))),
                },
                match target_at {
                    None => target_ll_addr is None,
                    Some(o) => target_ll_addr == Some(lladdr_of(option_at(p, o as int))),
                },
                match mtu_at {
                    None => mtu is None,
                    Some(o) => mtu == Some(be32(option_at(p, o as int), 4)),
                },
                match prefix_at {
                    None => prefix_info is None,
                    Some(o) => prefix_info matches Some(i) && NdiscOptionRepr::PrefixInformation(
                        i,
                    ).parsed_from(option_at(p, o as int)),
                },
                match redirected_at {
                    None => redirected_hdr is None,
                    Some(o) => redirected_hdr matches Some(h) && NdiscOptionRepr::RedirectedHeader(
                        h,
                    ).parsed_from(option_at(p, o as int)),
                },
            decreases n - offset,
        {
            let ghost q = option_at(p, offset as int);
            let window = crate::buf::tail(payload, offset);
            assert(window@ == q);
            let pkt = match NdiscOption::new_checked_ref(Ref::new(window)) {
                Ok(o) => o,
                Err(e) => {
                    assert(!options_ok(p, offset as nat));
                    return Err(e);
                },
            };
            match NdiscOptionRepr::parse(&pkt) {
                Ok(NdiscOptionRepr::SourceLinkLayerAddr(addr)) => {
                    src_ll_addr = Some(addr);
                    proof {
                        src_at = Some(offset as nat);
                    }
                },
                Ok(NdiscOptionRepr::TargetLinkLayerAddr(addr)) => {
                    target_ll_addr = Some(addr);
                    proof {
                        target_at = Some(offset as nat);
                    }
                },
                Ok(NdiscOptionRepr::PrefixInformation(prefix)) => {
                    prefix_info = Some(prefix);
                    proof {
                        prefix_at = Some(offset as nat);
                    }
                },
                Ok(NdiscOptionRepr::RedirectedHeader(redirect)) => {
                    redirected_hdr = Some(redirect);
                    proof {
                        redirected_at = Some(offset as nat);
                    }
                },
                Ok(NdiscOptionRepr::Mtu(m)) => {
                    mtu = Some(m);
                    proof {
                        mtu_at = Some(offset as nat);
                    }
                },
                _ => {},
            }
            let len = pkt.data_len() as usize * 8;
            if len == 0 {
                return Err(Error);
            }
            offset = offset + len;
        }
        let src_ll_addr = MaybeAddr::from_option(src_ll_addr);
        let target_ll_addr = MaybeAddr::from_option(target_ll_addr);
        let mtu = Maybe::from_option(mtu);
        let prefix_info = Maybe::from_option(prefix_info);
        let redirected_hdr = MaybeRedirected::from_option(redirected_hdr);
        let ghost s = packet.data().update(0, packet.ty().raw());
        proof {
            let h = packet.ty().header_len_spec();
            assert(options_area(s, h) =~= p);
            if h >= 24 {
                assert(s.subrange(8, 24) =~= packet.data().subrange(8, 24));
            }
            if packet.ty() is Redirect {
                assert(s.subrange(24, 40) =~= packet.data().subrange(24, 40));
            }
        }
        match packet.msg_type() {
            Message::RouterSolicit => Ok(Repr::RouterSolicit { lladdr: src_ll_addr }),
            Message::RouterAdvert => Ok(
                Repr::RouterAdvert {
                    hop_limit: packet.current_hop_limit(),
                    flags: packet.router_flags(),
                    router_lifetime: packet.router_lifetime(),
                    reachable_time: packet.reachable_time(),
                    retrans_time: packet.retrans_time(),
                    lladdr: src_ll_addr,
                    mtu,
                    prefix_info,
                },
            ),
            Message::NeighborSolicit => Ok(
                Repr::NeighborSolicit { target_addr: packet.target_addr(), lladdr: src_ll_addr },
            ),
            Message::NeighborAdvert => Ok(
                Repr::NeighborAdvert {
                    flags: packet.neighbor_flags(),
                    target_addr: packet.target_addr(),
                    lladdr: target_ll_addr,
                },
            ),
            Message::Redirect => Ok(
                Repr::Redirect {
                    target_addr: packet.target_addr(),
                    dest_addr: packet.dest_addr(),
                    lladdr: target_ll_addr,
                    redirected_hdr,
                },
            ),
            _ => Err(Error),
        }
    }
}

/// The octets a link-layer address option takes, when there is one.
pub open spec fn opt_addr_len_spec(lladdr: MaybeAddr) -> int {
    match lladdr {
        MaybeAddr::Present(addr) => round8((2 + addr@.len()) as nat) as int,
        MaybeAddr::Absent => 0,
    }
}

/// The octets a link-layer address option takes, when there is one.
fn opt_addr_len(lladdr: MaybeAddr) -> (r: usize)
    ensures
        r == opt_addr_len_spec(lladdr),
{
    match lladdr {
        MaybeAddr::Present(addr) => {
            let len = 2 + addr.len();
            if len % 8 == 0 {
                len
            } else {
                len + 8 - len % 8
            }
        },
        MaybeAddr::Absent => 0,
    }
}

/// The octets a Redirected Header option takes, when there is one.
pub open spec fn opt_redirected_len_spec(hdr: MaybeRedirected) -> int {
    match hdr {
        MaybeRedirected::Present(h) => round8((48 + h.data@.len()) as nat) as int,
        MaybeRedirected::Absent => 0,
    }
}

/// `s` with the option `opt` emitted over its octets from `at` on.
pub open spec fn put_option(s: Seq<u8>, at: int, opt: NdiscOptionRepr) -> Seq<u8> {
    splice(s, at, opt.emit_spec(s.subrange(at, at + opt.buffer_len_spec())))
}

/// `s` with the link-layer address option of type `ty` emitted from `at` on,
/// when there is an address.
pub open spec fn put_addr(s: Seq<u8>, at: int, ty: u8, lladdr: MaybeAddr) -> Seq<u8> {
    match lladdr {
        MaybeAddr::Present(addr) => put_option(
            s,
            at,
            if ty == 1 {
                NdiscOptionRepr::SourceLinkLayerAddr(addr)
            } else {
                NdiscOptionRepr::TargetLinkLayerAddr(addr)
            },
        ),
        MaybeAddr::Absent => s,
    }
}

/// `s` with the message type and a zero code written, and the reserved
/// octets after them cleared.
pub open spec fn put_type_cleared(s: Seq<u8>, ty: u8) -> Seq<u8> {
    put_be16(put_be16(s.update(0, ty).update(1, 0u8), 4, 0), 6, 0)
}

/// Emit one option from `at` on, through a copy of the octets it takes.
fn emit_option_at<T: BytesMut>(packet: &mut Packet<T>, at: usize, opt: &NdiscOptionRepr)
    requires
        at + opt.buffer_len_spec() <= old(packet).data().len(),
        opt.emittable(opt.buffer_len_spec()),
    ensures
        final(packet).data() == put_option(old(packet).data(), at as int, *opt),
        final(packet).ty() == old(packet).ty(),
{
    let _total = packet.buffer_ref().byte_len();
    let blen = opt.buffer_len();
    let window = vstd::slice::slice_to_vec(crate::buf::sub(packet.buffer_ref().as_bytes(), at, blen));
    let mut o = NdiscOption::new_unchecked(window);
    opt.emit(&mut o);
    let emitted = o.into_inner();
    packet.buffer_mut().copy_in(at, emitted.as_slice());
}

impl<'a> Repr<'a> {
    /// The length of the message this representation is emitted as.
    pub open spec fn buffer_len_spec(self) -> int {
        match self {
            Repr::RouterSolicit { lladdr } => 8 + opt_addr_len_spec(lladdr),
            Repr::RouterAdvert { lladdr, mtu, prefix_info, .. } => 16 + opt_addr_len_spec(lladdr) + (if mtu is Just {
                8int
            } else {
                0
            }) + (if prefix_info is Just {
                32int
            } else {
                0
            }),
            Repr::NeighborSolicit { lladdr, .. } => 24 + opt_addr_len_spec(lladdr),
            Repr::NeighborAdvert { lladdr, .. } => 24 + opt_addr_len_spec(lladdr),
            Repr::Redirect { lladdr, redirected_hdr, .. } => 40 + opt_addr_len_spec(lladdr)
                + opt_redirected_len_spec(redirected_hdr),
        }
    }

    /// Return the length of a packet that will be emitted from this
    /// high-level representation.
    pub fn buffer_len(&self) -> (r: usize)
        requires
            self.buffer_len_spec() <= usize::MAX,
        ensures
            r == self.buffer_len_spec(),
    {
        match *self {
            Repr::RouterSolicit { lladdr } => 8 + opt_addr_len(lladdr),
            Repr::RouterAdvert { lladdr, mtu, prefix_info, .. } => {
                let mut offset = 16 + opt_addr_len(lladdr);
                if mtu.is_present() {
                    offset = offset + 8;
                }
                if prefix_info.is_present() {
                    offset = offset + 32;
                }
                offset
            },
            Repr::NeighborSolicit { lladdr, .. } | Repr::NeighborAdvert { lladdr, .. } => 24
                + opt_addr_len(lladdr),
            Repr::Redirect { lladdr, redirected_hdr, .. } => {
                let mut offset = 40 + opt_addr_len(lladdr);
                if let MaybeRedirected::Present(RedirectedHeader { data, .. }) = redirected_hdr {
                    let len = 48 + data.len();
                    offset = offset + if len % 8 == 0 {
                        len
                    } else {
                        len + 8 - len % 8
                    };
                }
                offset
            },
        }
    }

    /// The message type of this representation.
    pub open spec fn msg_type_spec(self) -> Message {
        match self {
            Repr::RouterSolicit { .. } => Message::RouterSolicit,
            Repr::RouterAdvert { .. } => Message::RouterAdvert,
            Repr::NeighborSolicit { .. } => Message::NeighborSolicit,
            Repr::NeighborAdvert { .. } => Message::NeighborAdvert,
            Repr::Redirect { .. } => Message::Redirect,
        }
    }

    /// The representation can be emitted into a buffer of `len` octets: it
    /// fits, and a redirected packet's octets, rounded up to whole units of
    /// eight, are few enough for its option's length field to count.
    pub open spec fn emittable(self, len: int) -> bool {
        &&& self.buffer_len_spec() <= len
        &&& self matches Repr::Redirect { redirected_hdr: MaybeRedirected::Present(h), .. } ==> 48
            + h.data@.len() <= 255 * 8
    }

    /// `s` with this message emitted over it; the checksum is left as it
    /// was.
    pub open spec fn emit_spec(self, s: Seq<u8>) -> Seq<u8> {
        match self {
            Repr::RouterSolicit { lladdr } => put_addr(put_type_cleared(s, 0x85), 8, 1, lladdr),
            Repr::RouterAdvert {
                hop_limit,
                flags,
                router_lifetime,
                reachable_time,
                retrans_time,
                lladdr,
                mtu,
                prefix_info,
            } => {
                let t = put_be32(
                    put_be32(
                        put_be16(
                            s.update(0, 0x86u8).update(1, 0u8).update(4, hop_limit).update(
                                5,
                                flags.bits_spec(),
                            ),
                            6,
                            secs16(router_lifetime),
                        ),
                        8,
                        millis32(reachable_time),
                    ),
                    12,
                    millis32(retrans_time),
                );
                let a = 16 + opt_addr_len_spec(lladdr);
                let t1 = put_addr(t, 16, 1, lladdr);
                let t2 = match mtu {
                    Maybe::Just(m) => put_option(t1, a, NdiscOptionRepr::Mtu(m)),
                    Maybe::Nothing => t1,
                };
                let b = a + if mtu is Just {
                    8int
                } else {
                    0
                };
                match prefix_info {
                    Maybe::Just(i) => put_option(t2, b, NdiscOptionRepr::PrefixInformation(i)),
                    Maybe::Nothing => t2,
                }
            },
            Repr::NeighborSolicit { target_addr, lladdr } => put_addr(
                splice(put_type_cleared(s, 0x87), 8, target_addr@),
                24,
                1,
                lladdr,
            ),
            Repr::NeighborAdvert { flags, target_addr, lladdr } => put_addr(
                splice(put_type_cleared(s, 0x88).update(4, flags.bits_spec()), 8, target_addr@),
                24,
                2,
                lladdr,
            ),
            Repr::Redirect { target_addr, dest_addr, lladdr, redirected_hdr } => {
                let t = splice(splice(put_type_cleared(s, 0x89), 8, target_addr@), 24, dest_addr@);
                let t1 = put_addr(t, 40, 2, lladdr);
                match redirected_hdr {
                    MaybeRedirected::Present(h) => put_option(
                        t1,
                        40 + opt_addr_len_spec(lladdr),
                        NdiscOptionRepr::RedirectedHeader(h),
                    ),
                    MaybeRedirected::Absent => t1,
                }
            },
        }
    }

    /// Emit this high-level representation into an ICMPv6 packet; the
    /// checksum is left for the ICMPv6 layer to fill in.
    pub fn emit<T: BytesMut>(&self, packet: &mut Packet<T>)
        requires
            self.emittable(old(packet).data().len() as int),
        ensures
            final(packet).data() == self.emit_spec(old(packet).data()),
            final(packet).ty() == self.msg_type_spec(),
    {
        let _total = packet.buffer_ref().byte_len();
        match *self {
            Repr::RouterSolicit { lladdr } => {
                packet.set_msg_type(Message::RouterSolicit);
                packet.set_msg_code(0);
                packet.clear_reserved();
                if let MaybeAddr::Present(lladdr) = lladdr {
                    emit_option_at(packet, 8, &NdiscOptionRepr::SourceLinkLayerAddr(lladdr));
                }
            },
            Repr::RouterAdvert {
                hop_limit,
                flags,
                router_lifetime,
                reachable_time,
                retrans_time,
                lladdr,
                mtu,
                prefix_info,
            } => {
                packet.set_msg_type(Message::RouterAdvert);
                packet.set_msg_code(0);
                packet.set_current_hop_limit(hop_limit);
                packet.set_router_flags(flags);
                packet.set_router_lifetime(router_lifetime);
                packet.set_reachable_time(reachable_time);
                packet.set_retrans_time(retrans_time);
                let mut offset: usize = 16;
                if let MaybeAddr::Present(lladdr) = lladdr {
                    let opt = NdiscOptionRepr::SourceLinkLayerAddr(lladdr);
                    emit_option_at(packet, offset, &opt);
                    offset = offset + opt.buffer_len();
                }
                if let Maybe::Just(mtu) = mtu {
                    emit_option_at(packet, offset, &NdiscOptionRepr::Mtu(mtu));
                    offset = offset + 8;
                }
                if let Maybe::Just(prefix_info) = prefix_info {
                    emit_option_at(packet, offset, &NdiscOptionRepr::PrefixInformation(prefix_info));
                }
            },
            Repr::NeighborSolicit { target_addr, lladdr } => {
                packet.set_msg_type(Message::NeighborSolicit);
                packet.set_msg_code(0);
                packet.clear_reserved();
                packet.set_target_addr(target_addr);
                if let MaybeAddr::Present(lladdr) = lladdr {
                    emit_option_at(packet, 24, &NdiscOptionRepr::SourceLinkLayerAddr(lladdr));
                }
            },
            Repr::NeighborAdvert { flags, target_addr, lladdr } => {
                packet.set_msg_type(Message::NeighborAdvert);
                packet.set_msg_code(0);
                packet.clear_reserved();
                packet.set_neighbor_flags(flags);
                packet.set_target_addr(target_addr);
                if let MaybeAddr::Present(lladdr) = lladdr {
                    emit_option_at(packet, 24, &NdiscOptionRepr::TargetLinkLayerAddr(lladdr));
                }
            },
            Repr::Redirect { target_addr, dest_addr, lladdr, redirected_hdr } => {
                packet.set_msg_type(Message::Redirect);
                packet.set_msg_code(0);
                packet.clear_reserved();
                packet.set_target_addr(target_addr);
                packet.set_dest_addr(dest_addr);
                let offset = match lladdr {
                    MaybeAddr::Present(lladdr) => {
                        let opt = NdiscOptionRepr::TargetLinkLayerAddr(lladdr);
                        emit_option_at(packet, 40, &opt);
                        40 + opt.buffer_len()
                    },
                    MaybeAddr::Absent => 40,
                };
                if let MaybeRedirected::Present(redirected_hdr) = redirected_hdr {
                    emit_option_at(packet, offset, &NdiscOptionRepr::RedirectedHeader(redirected_hdr));
                }
            },
        }
    }
}

/// The type octet an option is emitted with.
pub open spec fn type_octet(opt: NdiscOptionRepr) -> u8 {
    match opt {
        NdiscOptionRepr::SourceLinkLayerAddr(_) => 1,
        NdiscOptionRepr::TargetLinkLayerAddr(_) => 2,
        NdiscOptionRepr::PrefixInformation(_) => 3,
        NdiscOptionRepr::RedirectedHeader(_) => 4,
        NdiscOptionRepr::Mtu(_) => 5,
        NdiscOptionRepr::Unknown { type_, .. } => type_,
    }
}

/// The octets an option takes, when there is one.
pub open spec fn opt_len(opt: Option<NdiscOptionRepr>) -> int {
    match opt {
        Some(x) => x.buffer_len_spec(),
        None => 0,
    }
}

/// The option `opt`, when there is one, sits at `off` of the options area
/// `p`: it was emitted over the octets `w` of its own length, and it is one
/// that parses back.
pub open spec fn placed(p: Seq<u8>, off: int, opt: Option<NdiscOptionRepr>, w: Seq<u8>) -> bool {
    match opt {
        Some(x) => {
            &&& w.len() == x.buffer_len_spec()
            &&& x.emittable(w.len() as int)
            &&& option_parses_back(x)
            &&& p.subrange(off, off + x.buffer_len_spec()) == x.emit_spec(w)
        },
        None => true,
    }
}

/// The offset a walk remembers for type `ty` after passing the option `opt`
/// at `off`, when there is one.
pub open spec fn pick(ty: u8, off: nat, opt: Option<NdiscOptionRepr>, found: Option<nat>) -> Option<nat> {
    match opt {
        Some(x) => if type_octet(x) == ty {
            Some(off)
        } else {
            found
        },
        None => found,
    }
}

/// The octets of a message describe at most one representation: two
/// representations that both are what parsing `s` gives are the same.
pub proof fn lemma_parsed_from_unique(x: Repr, y: Repr, s: Seq<u8>)
    requires
        x.parsed_from(s),
        y.parsed_from(s),
    ensures
        x == y,
{
    match (x, y) {
        (
            Repr::RouterAdvert {
                flags: f1,
                router_lifetime: l1,
                reachable_time: r1,
                retrans_time: t1,
                prefix_info: p1,
                ..
            },
            Repr::RouterAdvert {
                flags: f2,
                router_lifetime: l2,
                reachable_time: r2,
                retrans_time: t2,
                prefix_info: p2,
                ..
            },
        ) => {
            RouterFlags::lemma_bits(f1, 0);
            RouterFlags::lemma_bits(f2, 0);
            Duration::lemma_micros(l1);
            Duration::lemma_micros(l2);
            Duration::lemma_micros(r1);
            Duration::lemma_micros(r2);
            Duration::lemma_micros(t1);
            Duration::lemma_micros(t2);
            let p = options_area(s, 16);
            if let Some(o) = last_option(p, 0, 3, None) {
                if let (Maybe::Just(i1), Maybe::Just(i2)) = (p1, p2) {
                    crate::ndiscoption::lemma_parsed_from_unique(
                        NdiscOptionRepr::PrefixInformation(i1),
                        NdiscOptionRepr::PrefixInformation(i2),
                        option_at(p, o as int),
                    );
                }
            }
        },
        (Repr::NeighborAdvert { flags: f1, .. }, Repr::NeighborAdvert { flags: f2, .. }) => {
            NeighborFlags::lemma_bits(f1, 0);
            NeighborFlags::lemma_bits(f2, 0);
        },
        (Repr::Redirect { redirected_hdr: h1, .. }, Repr::Redirect { redirected_hdr: h2, .. }) => {
            let p = options_area(s, 40);
            if let Some(o) = last_option(p, 0, 4, None) {
                if let (MaybeRedirected::Present(a), MaybeRedirected::Present(b)) = (h1, h2) {
                    crate::ndiscoption::lemma_parsed_from_unique(
                        NdiscOptionRepr::RedirectedHeader(a),
                        NdiscOptionRepr::RedirectedHeader(b),
                        option_at(p, o as int),
                    );
                }
            }
        },
        _ => {},
    }
}

/// An emitted option's octets are as many as it was emitted over.
proof fn lemma_emit_len(x: NdiscOptionRepr, w: Seq<u8>)
    requires
        x.emittable(w.len() as int),
    ensures
        x.emit_spec(w).len() == w.len(),
{
}

/// An option that parses on its own still parses, to the same
/// representation, with more octets after it.
proof fn lemma_option_in_place(e: Seq<u8>, q: Seq<u8>, x: NdiscOptionRepr)
    requires
        e.len() >= 8,
        e[1] * 8 == e.len(),
        e.len() <= q.len(),
        q.subrange(0, e.len() as int) == e,
        option_parse_ok(e),
        x.parsed_from(e),
    ensures
        option_len_ok(q),
        q[1] != 0,
        option_parse_ok(q),
        x.parsed_from(q),
{
    let end = e.len() as int;
    assert forall|i: int| 0 <= i < end implies q[i] == e[i] by {
        assert(q.subrange(0, end)[i] == q[i]);
    }
    assert(q.subrange(8, end) =~= e.subrange(8, end));
    assert(q.subrange(2, end) =~= e.subrange(2, end));
    if end >= 32 {
        assert(q.subrange(16, 32) =~= e.subrange(16, 32));
    }
    let l = lladdr_len(e);
    if 0 <= l && 2 + l <= end {
        assert(q.subrange(2, 2 + l) =~= e.subrange(2, 2 + l));
    }
}

/// An option placed at `off` of an options area is well-formed there,
/// declares its own length, and parses back as it was.
proof fn lemma_option_at(p: Seq<u8>, off: nat, x: NdiscOptionRepr, w: Seq<u8>)
    requires
        off + x.buffer_len_spec() <= p.len(),
        placed(p, off as int, Some(x), w),
    ensures
        option_len_ok(option_at(p, off as int)),
        option_at(p, off as int)[1] != 0,
        option_at(p, off as int)[1] * 8 == x.buffer_len_spec(),
        option_at(p, off as int)[0] == type_octet(x),
        option_parse_ok(option_at(p, off as int)),
        x.parsed_from(option_at(p, off as int)),
{
    let e = x.emit_spec(w);
    lemma_emit_len(x, w);
    crate::ndiscoption::lemma_emit_then_parse(x, w);
    assert(e[1] * 8 == x.buffer_len_spec() && e[0] == type_octet(x)) by {
        lemma_option_header(x, w);
    }
    let q = option_at(p, off as int);
    assert(q.subrange(0, e.len() as int) =~= e);
    lemma_option_in_place(e, q, x);
}

/// An emitted option starts with its type octet and a length field that
/// counts its octets in units of eight.
proof fn lemma_option_header(x: NdiscOptionRepr, w: Seq<u8>)
    requires
        x.emittable(w.len() as int),
        option_parses_back(x),
        w.len() == x.buffer_len_spec(),
    ensures
        x.emit_spec(w)[0] == type_octet(x),
        x.emit_spec(w)[1] * 8 == x.buffer_len_spec(),
{
    match x {
        NdiscOptionRepr::SourceLinkLayerAddr(addr) => {
            assert(round8((2 + addr@.len()) as nat) == 8);
        },
        NdiscOptionRepr::TargetLinkLayerAddr(addr) => {
            assert(round8((2 + addr@.len()) as nat) == 8);
        },
        NdiscOptionRepr::PrefixInformation(_) => {},
        NdiscOptionRepr::RedirectedHeader(rh) => {
            let n = (48 + rh.data@.len()) as nat;
            crate::ndiscoption::lemma_round8(n);
            assert((round8(n) / 8) as u8 * 8 == round8(n));
        },
        NdiscOptionRepr::Mtu(_) => {},
        NdiscOptionRepr::Unknown { .. } => {},
    }
}

/// Walking past a placed option moves on by its length and remembers it
/// for its own type.
proof fn lemma_walk_step(p: Seq<u8>, off: nat, x: NdiscOptionRepr, w: Seq<u8>)
    requires
        off + x.buffer_len_spec() <= p.len(),
        placed(p, off as int, Some(x), w),
    ensures
        options_ok(p, off) == options_ok(p, (off + x.buffer_len_spec()) as nat),
        forall|ty: u8, found: Option<nat>| #[trigger]
            last_option(p, off, ty, found) == last_option(
                p,
                (off + x.buffer_len_spec()) as nat,
                ty,
                pick(ty, off, Some(x), found),
            ),
        x.parsed_from(option_at(p, off as int)),
{
    lemma_option_at(p, off, x, w);
}

/// An options area made of up to three placed options, one after the
/// other, is well-formed, and for each type the walk finds the last of them
/// of that type.
proof fn lemma_options_read_back(
    p: Seq<u8>,
    o1: Option<NdiscOptionRepr>,
    w1: Seq<u8>,
    o2: Option<NdiscOptionRepr>,
    w2: Seq<u8>,
    o3: Option<NdiscOptionRepr>,
    w3: Seq<u8>,
)
    requires
        p.len() == opt_len(o1) + opt_len(o2) + opt_len(o3),
        placed(p, 0, o1, w1),
        placed(p, opt_len(o1), o2, w2),
        placed(p, opt_len(o1) + opt_len(o2), o3, w3),
    ensures
        options_ok(p, 0),
        forall|ty: u8| #[trigger]
            last_option(p, 0, ty, None) == pick(
                ty,
                (opt_len(o1) + opt_len(o2)) as nat,
                o3,
                pick(ty, opt_len(o1) as nat, o2, pick(ty, 0, o1, None)),
            ),
        o1 matches Some(x) ==> x.parsed_from(option_at(p, 0)),
        o2 matches Some(x) ==> x.parsed_from(option_at(p, opt_len(o1))),
        o3 matches Some(x) ==> x.parsed_from(option_at(p, opt_len(o1) + opt_len(o2))),
{
    let l1 = opt_len(o1);
    let l2 = opt_len(o2);
    let l3 = opt_len(o3);
    assert(l1 >= 0 && l2 >= 0 && l3 >= 0) by {
        if let Some(x) = o1 {
            lemma_emit_len(x, w1);
        }
        if let Some(x) = o2 {
            lemma_emit_len(x, w2);
        }
        if let Some(x) = o3 {
            lemma_emit_len(x, w3);
        }
    }
    if let Some(x) = o1 {
        lemma_walk_step(p, 0, x, w1);
    }
    if let Some(x) = o2 {
        lemma_walk_step(p, l1 as nat, x, w2);
    }
    if let Some(x) = o3 {
        lemma_walk_step(p, (l1 + l2) as nat, x, w3);
    }
    assert(options_ok(p, (l1 + l2 + l3) as nat));
    assert forall|ty: u8| #[trigger]
        last_option(p, 0, ty, None) == pick(
            ty,
            (l1 + l2) as nat,
            o3,
            pick(ty, l1 as nat, o2, pick(ty, 0, o1, None)),
        ) by {
        let f1 = pick(ty, 0, o1, None);
        let f2 = pick(ty, l1 as nat, o2, f1);
        let f3 = pick(ty, (l1 + l2) as nat, o3, f2);
        assert(last_option(p, 0, ty, None) == last_option(p, l1 as nat, ty, f1));
        assert(last_option(p, l1 as nat, ty, f1) == last_option(p, (l1 + l2) as nat, ty, f2));
        assert(last_option(p, (l1 + l2) as nat, ty, f2) == last_option(p, (l1 + l2 + l3) as nat, ty, f3));
    }
}

/// The option a link-layer address is emitted as, when there is one.
pub open spec fn addr_opt(ty: u8, lladdr: MaybeAddr) -> Option<NdiscOptionRepr<'static>> {
    match lladdr {
        MaybeAddr::Present(addr) => Some(
            if ty == 1 {
                NdiscOptionRepr::SourceLinkLayerAddr(addr)
            } else {
                NdiscOptionRepr::TargetLinkLayerAddr(addr)
            },
        ),
        MaybeAddr::Absent => None,
    }
}

/// A link-layer address parses back when it has six octets.
pub open spec fn addr_parses_back(lladdr: MaybeAddr) -> bool {
    match lladdr {
        MaybeAddr::Present(addr) => addr.wf() && addr@.len() == 6,
        MaybeAddr::Absent => true,
    }
}

/// A message parses back from what it emits when what it carries is what
/// parsing reads back: link-layer addresses of six octets, flags with no
/// unnamed bit, a router lifetime of whole seconds and reachable and
/// retransmit times of whole milliseconds that their fields hold, and a
/// prefix or redirected header that parses back as an option.
pub open spec fn emit_parses_back(r: Repr) -> bool {
    match r {
        Repr::RouterSolicit { lladdr } => addr_parses_back(lladdr),
        Repr::RouterAdvert {
            flags,
            router_lifetime,
            reachable_time,
            retrans_time,
            lladdr,
            prefix_info,
            ..
        } => {
            &&& flags.bits_spec() / 64 * 64 == flags.bits_spec()
            &&& router_lifetime.micros() == secs16(router_lifetime) * 1000000
            &&& reachable_time.micros() == millis32(reachable_time) * 1000
            &&& retrans_time.micros() == millis32(retrans_time) * 1000
            &&& addr_parses_back(lladdr)
            &&& prefix_info matches Maybe::Just(i) ==> option_parses_back(
                NdiscOptionRepr::PrefixInformation(i),
            )
        },
        Repr::NeighborSolicit { lladdr, .. } => addr_parses_back(lladdr),
        Repr::NeighborAdvert { flags, lladdr, .. } => flags.bits_spec() / 32 * 32 == flags.bits_spec()
            && addr_parses_back(lladdr),
        Repr::Redirect { lladdr, redirected_hdr, .. } => addr_parses_back(lladdr)
            && (redirected_hdr matches MaybeRedirected::Present(h) ==> option_parses_back(
            NdiscOptionRepr::RedirectedHeader(h),
        )),
    }
}

/// Emitting a link-layer address option over `s` from `at` on places it
/// there, leaves the octets before it as they were, and keeps the length.
proof fn lemma_put_addr(s: Seq<u8>, at: int, ty: u8, lladdr: MaybeAddr)
    requires
        0 <= at,
        at + opt_addr_len_spec(lladdr) <= s.len(),
        addr_parses_back(lladdr),
    ensures
        put_addr(s, at, ty, lladdr).len() == s.len(),
        opt_len(addr_opt(ty, lladdr)) == opt_addr_len_spec(lladdr),
        opt_addr_len_spec(lladdr) == (if lladdr is Present {
            8int
        } else {
            0
        }),
        forall|i: int| 0 <= i < at ==> #[trigger] put_addr(s, at, ty, lladdr)[i] == s[i],
        placed(
            put_addr(s, at, ty, lladdr).subrange(at, at + opt_addr_len_spec(lladdr)),
            0,
            addr_opt(ty, lladdr),
            s.subrange(at, at + opt_addr_len_spec(lladdr)),
        ),
{
    if let MaybeAddr::Present(addr) = lladdr {
        assert(round8((2 + addr@.len()) as nat) == 8);
        let x = addr_opt(ty, lladdr)->0;
        let w = s.subrange(at, at + 8);
        lemma_emit_len(x, w);
        let t = put_addr(s, at, ty, lladdr);
        assert(t.subrange(at, at + 8).subrange(0, 8) =~= x.emit_spec(w));
    }
}

/// Emitting an option over `s` from `at` on places it there, leaves the
/// octets before it as they were, and keeps the length.
proof fn lemma_put_option(s: Seq<u8>, at: int, x: NdiscOptionRepr)
    requires
        0 <= at,
        at + x.buffer_len_spec() <= s.len(),
        x.emittable(x.buffer_len_spec()),
        option_parses_back(x),
    ensures
        put_option(s, at, x).len() == s.len(),
        forall|i: int| 0 <= i < at ==> #[trigger] put_option(s, at, x)[i] == s[i],
        placed(
            put_option(s, at, x).subrange(at, at + x.buffer_len_spec()),
            0,
            Some(x),
            s.subrange(at, at + x.buffer_len_spec()),
        ),
{
    let w = s.subrange(at, at + x.buffer_len_spec());
    lemma_emit_len(x, w);
    let t = put_option(s, at, x);
    assert(t.subrange(at, at + x.buffer_len_spec()).subrange(0, x.buffer_len_spec()) =~= x.emit_spec(w));
}


/// Parsing the message that was emitted, into a buffer of just its length,
/// gives back the representation, when what it carries parses back.
pub proof fn lemma_emit_then_parse(r: Repr, s: Seq<u8>)
    requires
        r.emittable(s.len() as int),
        s.len() == r.buffer_len_spec(),
        emit_parses_back(r),
    ensures
        parse_ok(r.msg_type_spec(), r.emit_spec(s)),
        r.parsed_from(r.emit_spec(s)),
        forall|x: Repr| #[trigger] x.parsed_from(r.emit_spec(s)) ==> x == r,
{
    match r {
        Repr::RouterSolicit { .. } => lemma_router_solicit_back(r, s),
        Repr::NeighborSolicit { .. } => lemma_neighbor_solicit_back(r, s),
        Repr::NeighborAdvert { .. } => lemma_neighbor_advert_back(r, s),
        Repr::Redirect { .. } => lemma_redirect_back(r, s),
        Repr::RouterAdvert { .. } => lemma_router_advert_back(r, s),
    }
    assert forall|x: Repr| #[trigger] x.parsed_from(r.emit_spec(s)) implies x == r by {
        lemma_parsed_from_unique(x, r, r.emit_spec(s));
    }
}

proof fn lemma_router_solicit_back(r: Repr, s: Seq<u8>)
    requires
        r is RouterSolicit,
        r.emittable(s.len() as int),
        s.len() == r.buffer_len_spec(),
        emit_parses_back(r),
    ensures
        parse_ok(r.msg_type_spec(), r.emit_spec(s)),
        r.parsed_from(r.emit_spec(s)),
{
    let t = r.emit_spec(s);
    let e: Seq<u8> = Seq::empty();
    let lladdr = r->RouterSolicit_lladdr;
    let t0 = put_type_cleared(s, 0x85);
    let l = opt_addr_len_spec(lladdr);
    lemma_put_addr(t0, 8, 1, lladdr);
    let p = options_area(t, 8);
    assert(p =~= t.subrange(8, 8 + l));
    lemma_options_read_back(p, addr_opt(1, lladdr), t0.subrange(8, 8 + l), None, e, None, e);
    assert(t[0] == t0[0]);
}

proof fn lemma_neighbor_solicit_back(r: Repr, s: Seq<u8>)
    requires
        r is NeighborSolicit,
        r.emittable(s.len() as int),
        s.len() == r.buffer_len_spec(),
        emit_parses_back(r),
    ensures
        parse_ok(r.msg_type_spec(), r.emit_spec(s)),
        r.parsed_from(r.emit_spec(s)),
{
    let t = r.emit_spec(s);
    let e: Seq<u8> = Seq::empty();
    let target_addr = r->NeighborSolicit_target_addr;
    let lladdr = r->NeighborSolicit_lladdr;
    let t0 = splice(put_type_cleared(s, 0x87), 8, target_addr@);
    let l = opt_addr_len_spec(lladdr);
    Ipv6Address::lemma_view(target_addr);
    lemma_put_addr(t0, 24, 1, lladdr);
    let p = options_area(t, 24);
    assert(p =~= t.subrange(24, 24 + l));
    lemma_options_read_back(p, addr_opt(1, lladdr), t0.subrange(24, 24 + l), None, e, None, e);
    assert(t[0] == t0[0]);
    assert(t.subrange(8, 24) =~= target_addr@);
}

proof fn lemma_neighbor_advert_back(r: Repr, s: Seq<u8>)
    requires
        r is NeighborAdvert,
        r.emittable(s.len() as int),
        s.len() == r.buffer_len_spec(),
        emit_parses_back(r),
    ensures
        parse_ok(r.msg_type_spec(), r.emit_spec(s)),
        r.parsed_from(r.emit_spec(s)),
{
    let t = r.emit_spec(s);
    let e: Seq<u8> = Seq::empty();
    let flags = r->NeighborAdvert_flags;
    let target_addr = r->NeighborAdvert_target_addr;
    let lladdr = r->NeighborAdvert_lladdr;
    let t0 = splice(put_type_cleared(s, 0x88).update(4, flags.bits_spec()), 8, target_addr@);
    let l = opt_addr_len_spec(lladdr);
    Ipv6Address::lemma_view(target_addr);
    lemma_put_addr(t0, 24, 2, lladdr);
    let p = options_area(t, 24);
    assert(p =~= t.subrange(24, 24 + l));
    lemma_options_read_back(p, addr_opt(2, lladdr), t0.subrange(24, 24 + l), None, e, None, e);
    assert(t[0] == t0[0]);
    assert(t[4] == t0[4]);
    assert(t.subrange(8, 24) =~= target_addr@);
}

/// The option a redirected header is emitted as, when there is one.
pub open spec fn redirected_opt<'a>(hdr: MaybeRedirected<'a>) -> Option<NdiscOptionRepr<'a>> {
    match hdr {
        MaybeRedirected::Present(h) => Some(NdiscOptionRepr::RedirectedHeader(h)),
        MaybeRedirected::Absent => None,
    }
}

/// An options area of a link-layer address option and a redirected header
/// option, each when there is one, reads back as both.
proof fn lemma_redirect_options(p: Seq<u8>, lladdr: MaybeAddr, w1: Seq<u8>, hdr: MaybeRedirected, w2: Seq<u8>)
    requires
        p.len() == opt_len(addr_opt(2, lladdr)) + opt_len(redirected_opt(hdr)),
        placed(p, 0, addr_opt(2, lladdr), w1),
        placed(p, opt_len(addr_opt(2, lladdr)), redirected_opt(hdr), w2),
    ensures
        options_ok(p, 0),
        addr_option(p, 2, lladdr),
        redirected_option(p, hdr),
{
    let e: Seq<u8> = Seq::empty();
    lemma_options_read_back(p, addr_opt(2, lladdr), w1, redirected_opt(hdr), w2, None, e);
}

proof fn lemma_redirect_back(r: Repr, s: Seq<u8>)
    requires
        r is Redirect,
        r.emittable(s.len() as int),
        s.len() == r.buffer_len_spec(),
        emit_parses_back(r),
    ensures
        parse_ok(r.msg_type_spec(), r.emit_spec(s)),
        r.parsed_from(r.emit_spec(s)),
{
    let t = r.emit_spec(s);
    let target_addr = r->Redirect_target_addr;
    let dest_addr = r->Redirect_dest_addr;
    let lladdr = r->Redirect_lladdr;
    let redirected_hdr = r->Redirect_redirected_hdr;
    let t0 = splice(splice(put_type_cleared(s, 0x89), 8, target_addr@), 24, dest_addr@);
    let l = opt_addr_len_spec(lladdr);
    Ipv6Address::lemma_view(target_addr);
    Ipv6Address::lemma_view(dest_addr);
    lemma_put_addr(t0, 40, 2, lladdr);
    let t1 = put_addr(t0, 40, 2, lladdr);
    let p = options_area(t, 40);
    let l2 = opt_len(redirected_opt(redirected_hdr));
    if let MaybeRedirected::Present(h) = redirected_hdr {
        lemma_put_option(t1, 40 + l, NdiscOptionRepr::RedirectedHeader(h));
        assert(t.subrange(40 + l, 40 + l + l2).subrange(0, l2) =~= t.subrange(40 + l, 40 + l + l2));
    }
    assert(p.subrange(0, l) =~= t1.subrange(40, 40 + l));
    assert(p.subrange(l, l + l2) =~= t.subrange(40 + l, 40 + l + l2));
    assert(t1.subrange(40, 40 + l).subrange(0, l) =~= t1.subrange(40, 40 + l));
    lemma_redirect_options(p, lladdr, t0.subrange(40, 40 + l), redirected_hdr, t1.subrange(40 + l, 40 + l + l2));
    assert(t[0] == t0[0]);
    assert(t.subrange(8, 24) =~= target_addr@);
    assert(t.subrange(24, 40) =~= dest_addr@);
}

/// The option an MTU is emitted as, when there is one.
pub open spec fn mtu_opt(mtu: Maybe<u32>) -> Option<NdiscOptionRepr<'static>> {
    match mtu {
        Maybe::Just(m) => Some(NdiscOptionRepr::Mtu(m)),
        Maybe::Nothing => None,
    }
}

/// The option prefix information is emitted as, when there is some.
pub open spec fn prefix_opt(info: Maybe<PrefixInformation>) -> Option<NdiscOptionRepr<'static>> {
    match info {
        Maybe::Just(i) => Some(NdiscOptionRepr::PrefixInformation(i)),
        Maybe::Nothing => None,
    }
}

/// An options area of a link-layer address option, an MTU option and a
/// Prefix Information option, each when there is one, reads back as all
/// three.
proof fn lemma_advert_options(
    p: Seq<u8>,
    lladdr: MaybeAddr,
    w1: Seq<u8>,
    mtu: Maybe<u32>,
    w2: Seq<u8>,
    info: Maybe<PrefixInformation>,
    w3: Seq<u8>,
)
    requires
        p.len() == opt_len(addr_opt(1, lladdr)) + opt_len(mtu_opt(mtu)) + opt_len(prefix_opt(info)),
        placed(p, 0, addr_opt(1, lladdr), w1),
        placed(p, opt_len(addr_opt(1, lladdr)), mtu_opt(mtu), w2),
        placed(p, opt_len(addr_opt(1, lladdr)) + opt_len(mtu_opt(mtu)), prefix_opt(info), w3),
    ensures
        options_ok(p, 0),
        addr_option(p, 1, lladdr),
        mtu_option(p, mtu),
        prefix_option(p, info),
{
    lemma_options_read_back(p, addr_opt(1, lladdr), w1, mtu_opt(mtu), w2, prefix_opt(info), w3);
}

proof fn lemma_router_advert_back(r: Repr, s: Seq<u8>)
    requires
        r is RouterAdvert,
        r.emittable(s.len() as int),
        s.len() == r.buffer_len_spec(),
        emit_parses_back(r),
    ensures
        parse_ok(r.msg_type_spec(), r.emit_spec(s)),
        r.parsed_from(r.emit_spec(s)),
{
    let t = r.emit_spec(s);
    let hop_limit = r->RouterAdvert_hop_limit;
    let flags = r->RouterAdvert_flags;
    let router_lifetime = r->RouterAdvert_router_lifetime;
    let reachable_time = r->RouterAdvert_reachable_time;
    let retrans_time = r->RouterAdvert_retrans_time;
    let lladdr = r->RouterAdvert_lladdr;
    let mtu = r->RouterAdvert_mtu;
    let prefix_info = r->RouterAdvert_prefix_info;
    let u = s.update(0, 0x86u8).update(1, 0u8).update(4, hop_limit).update(5, flags.bits_spec());
    let v1 = put_be16(u, 6, secs16(router_lifetime));
    let v2 = put_be32(v1, 8, millis32(reachable_time));
    let t0 = put_be32(v2, 12, millis32(retrans_time));
    crate::buf::lemma_be16_put(u, 6, secs16(router_lifetime));
    crate::buf::lemma_be32_put(v1, 8, millis32(reachable_time));
    crate::buf::lemma_be32_put(v2, 12, millis32(retrans_time));
    assert(be32(t0, 8) == be32(v2, 8));
    assert(be16(t0, 6) == be16(v1, 6));
    let l1 = opt_addr_len_spec(lladdr);
    let l2 = opt_len(mtu_opt(mtu));
    let l3 = opt_len(prefix_opt(prefix_info));
    lemma_put_addr(t0, 16, 1, lladdr);
    let t1 = put_addr(t0, 16, 1, lladdr);
    let t2 = match mtu {
        Maybe::Just(m) => put_option(t1, 16 + l1, NdiscOptionRepr::Mtu(m)),
        Maybe::Nothing => t1,
    };
    if let Maybe::Just(m) = mtu {
        lemma_put_option(t1, 16 + l1, NdiscOptionRepr::Mtu(m));
        assert(t2.subrange(16 + l1, 16 + l1 + l2).subrange(0, l2) =~= t2.subrange(16 + l1, 16 + l1 + l2));
    }
    if let Maybe::Just(i) = prefix_info {
        lemma_put_option(t2, 16 + l1 + l2, NdiscOptionRepr::PrefixInformation(i));
        assert(t.subrange(16 + l1 + l2, 16 + l1 + l2 + l3).subrange(0, l3) =~= t.subrange(
            16 + l1 + l2,
            16 + l1 + l2 + l3,
        ));
    }
    let p = options_area(t, 16);
    assert(p.subrange(0, l1) =~= t1.subrange(16, 16 + l1));
    assert(t1.subrange(16, 16 + l1).subrange(0, l1) =~= t1.subrange(16, 16 + l1));
    assert(p.subrange(l1, l1 + l2) =~= t2.subrange(16 + l1, 16 + l1 + l2));
    assert(p.subrange(l1 + l2, l1 + l2 + l3) =~= t.subrange(16 + l1 + l2, 16 + l1 + l2 + l3));
    lemma_advert_options(
        p,
        lladdr,
        t0.subrange(16, 16 + l1),
        mtu,
        t1.subrange(16 + l1, 16 + l1 + l2),
        prefix_info,
        t2.subrange(16 + l1 + l2, 16 + l1 + l2 + l3),
    );
    assert forall|i: int| 0 <= i < 16 implies t[i] == t0[i] by {
        assert(t1[i] == t0[i]);
        assert(t2[i] == t1[i]);
    }
    assert(be16(t, 6) == be16(t0, 6));
    assert(be32(t, 8) == be32(t0, 8));
    assert(be32(t, 12) == be32(t0, 12));
}

} // verus!
