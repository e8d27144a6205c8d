//! Internet Protocol version 4: addresses, CIDR blocks, packets.

use vstd::prelude::*;
use crate::buf::{be16, be32, put_be16, splice, Bytes, BytesMut, BytesSliceMut, read_u16_at};
use crate::checksum::{complement, ones_sum, sums_to_ones, lemma_fill_then_verify};
use crate::error::{Error, Result};
use crate::phy::ChecksumCapabilities;
pub use crate::ip::IpProtocol as Protocol;

verus! {

broadcast use vstd::array::group_array_axioms;

/// The minimum MTU that every IPv4 link must carry.
pub const MIN_MTU: usize = 576;

/// The length of an IPv4 header without options.
pub const HEADER_LEN: usize = 20;

/// The smallest value the IHL field may describe, in octets.
const MINIMUM_IHL_BYTES: u8 = 20;

/// A four-octet IPv4 address.
#[derive(Debug, Hash, PartialEq, Eq, PartialOrd, Ord, Clone, Copy, Default)]
pub struct Address {
    octets: [u8; 4],
}

impl View for Address {
    type V = Seq<u8>;

    closed spec fn view(&self) -> Seq<u8> {
        self.octets@
    }
}

impl Address {
    /// The address whose octets are `s`, for a four-octet `s`.
    pub closed spec fn from_seq(s: Seq<u8>) -> Address {
        Address { octets: [s[0], s[1], s[2], s[3]] }
    }

    /// The address as a 32-bit number, first octet most significant.
    pub open spec fn bits(self) -> u32 {
        be32(self@, 0)
    }

    /// Every address has four octets, and is determined by them.
    pub broadcast proof fn lemma_view(a: Address)
        ensures
            #[trigger] a@.len() == 4,
            Address::from_seq(a@) == a,
    {
        assert(Address::from_seq(a@).octets =~= a.octets);
    }

    /// The address built from four octets has those octets.
    pub broadcast proof fn lemma_from_seq(s: Seq<u8>)
        requires
            s.len() == 4,
        ensures
            #[trigger] Address::from_seq(s)@ == s,
    {
        assert(Address::from_seq(s)@ =~= s);
    }

    /// Construct an IPv4 address from parts.
    pub fn new(a0: u8, a1: u8, a2: u8, a3: u8) -> (r: Address)
        ensures
            r@ == seq![a0, a1, a2, a3],
    {
        let r = Address { octets: [a0, a1, a2, a3] };
        assert(r@ =~= seq![a0, a1, a2, a3]);
        r
    }

    /// The unspecified address, `0.0.0.0`.
    pub fn unspecified() -> (r: Address)
        ensures
            r@ == seq![0u8, 0, 0, 0],
    {
        Address::new(0, 0, 0, 0)
    }

    /// The broadcast address, `255.255.255.255`.
    pub fn broadcast() -> (r: Address)
        ensures
            r@ == seq![255u8, 255, 255, 255],
    {
        Address::new(255, 255, 255, 255)
    }

    /// Construct an IPv4 address from an array of octets.
    pub fn from_octets(octets: [u8; 4]) -> (r: Address)
        ensures
            r@ == octets@,
    {
        Address { octets }
    }

    /// Construct an IPv4 address from a sequence of four octets.
    pub fn from_bytes(data: &[u8]) -> (r: Address)
        requires
            data@.len() == 4,
        ensures
            r@ == data@,
            r == Address::from_seq(data@),
    {
        let r = Address { octets: [data[0], data[1], data[2], data[3]] };
        assert(r@ =~= data@);
        proof {
            Address::lemma_view(r);
        }
        r
    }

    /// Return the address as an array of octets.
    pub fn octets(&self) -> (r: [u8; 4])
        ensures
            r@ == self@,
    {
        self.octets
    }

    /// Return the address as a 32-bit number, first octet most significant.
    pub fn to_bits(&self) -> (r: u32)
        ensures
            r == self.bits(),
    {
        crate::buf::read_u32_at(self.octets.as_slice(), 0)
    }

    /// Construct an address from a 32-bit number, most significant octet first.
    pub fn from_bits(bits: u32) -> (r: Address)
        ensures
            r.bits() == bits,
    {
        let r = Address::new(
            (bits / 16777216) as u8,
            ((bits / 65536) % 256) as u8,
            ((bits / 256) % 256) as u8,
            (bits % 256) as u8,
        );
        assert(r.bits() == bits) by {
            assert((bits / 16777216) * 16777216 + ((bits / 65536) % 256) * 65536 + ((bits / 256)
                % 256) * 256 + bits % 256 == bits) by (nonlinear_arith);
        }
        r
    }

    /// Query whether the address is the unspecified address.
    pub fn is_unspecified(&self) -> (r: bool)
        ensures
            r == (self@ == seq![0u8, 0, 0, 0]),
    {
        let o = &self.octets;
        let r = o[0] == 0 && o[1] == 0 && o[2] == 0 && o[3] == 0;
        assert(r ==> self@ =~= seq![0u8, 0, 0, 0]);
        assert(self@ == seq![0u8, 0, 0, 0] ==> self@[3] == 0);
        r
    }

    /// Query whether the address is the broadcast address.
    pub fn is_broadcast(&self) -> (r: bool)
        ensures
            r == (self@ == seq![255u8, 255, 255, 255]),
    {
        let o = &self.octets;
        let r = o[0] == 255 && o[1] == 255 && o[2] == 255 && o[3] == 255;
        assert(r ==> self@ =~= seq![255u8, 255, 255, 255]);
        assert(self@ == seq![255u8, 255, 255, 255] ==> self@[3] == 255);
        r
    }

    /// Query whether the address is a multicast address, `224.0.0.0/4`.
    pub fn is_multicast(&self) -> (r: bool)
        ensures
            r == (self@[0] / 16 == 14),
    {
        self.octets[0] / 16 == 14
    }

    /// Query whether the address is link-local, `169.254.0.0/16`.
    pub fn is_link_local(&self) -> (r: bool)
        ensures
            r == (self@[0] == 169 && self@[1] == 254),
    {
        self.octets[0] == 169 && self.octets[1] == 254
    }

    /// Query whether the address is a loopback address, `127.0.0.0/8`.
    pub fn is_loopback(&self) -> (r: bool)
        ensures
            r == (self@[0] == 127),
    {
        self.octets[0] == 127
    }

    /// Query whether the address is a unicast address: neither broadcast,
    /// multicast nor unspecified.
    pub fn x_is_unicast(&self) -> (r: bool)
        ensures
            r == !(self@ == seq![255u8, 255, 255, 255] || self@[0] / 16 == 14 || self@ == seq![
                0u8,
                0,
                0,
                0,
            ]),
    {
        !(self.is_broadcast() || self.is_multicast() || self.is_unspecified())
    }

    /// If the address is a netmask, the length of its prefix of ones.
    pub fn prefix_len(&self) -> (r: Option<u8>)
        ensures
            r matches Some(p) ==> p <= 32 && netmask_bits(p) == self.bits(),
            r is None ==> forall|p: u8| p <= 32 ==> netmask_bits(p) != self.bits(),
    {
        let bits = self.to_bits();
        let mut p: u8 = 0;
        while p <= 32
            invariant
                bits == self.bits(),
                p <= 33,
                forall|q: u8| q < p ==> netmask_bits(q) != bits,
            decreases 33 - p,
        {
            if netmask(p) == bits {
                return Some(p);
            }
            p = p + 1;
        }
        None
    }
}

/// The netmask with a prefix of `p` ones.
pub open spec fn netmask_bits(p: u8) -> u32 {
    if p == 0 {
        0
    } else {
        0xffff_ffffu32 << ((32 - p) as u32)
    }
}

/// Compute the netmask with a prefix of `p` ones.
fn netmask(p: u8) -> (r: u32)
    requires
        p <= 32,
    ensures
        r == netmask_bits(p),
{
    if p == 0 {
        0
    } else {
        0xffff_ffffu32 << ((32 - p) as u32)
    }
}

/// Distinct prefix lengths give distinct netmasks.
pub proof fn lemma_netmask_injective(p: u8, q: u8)
    requires
        p <= 32,
        q <= 32,
        netmask_bits(p) == netmask_bits(q),
    ensures
        p == q,
{
    let a = (32 - p) as u32;
    let b = (32 - q) as u32;
    if p != 0 && q != 0 {
        assert(a <= 31 && b <= 31 && (0xffff_ffffu32 << a) == (0xffff_ffffu32 << b) ==> a == b)
            by (bit_vector);
    } else if p == 0 && q != 0 {
        assert(b <= 31 ==> (0xffff_ffffu32 << b) != 0) by (bit_vector);
    } else if p != 0 && q == 0 {
        assert(a <= 31 ==> (0xffff_ffffu32 << a) != 0) by (bit_vector);
    }
}

/// An IPv4 CIDR host: an address and a variable-length subnet masking prefix
/// length.
#[derive(Debug, Hash, PartialEq, Eq, PartialOrd, Ord, Clone, Copy)]
pub struct Cidr {
    address: Address,
    prefix_len: u8,
}

impl Cidr {
    /// A prefix is never longer than the address.
    #[verifier::type_invariant]
    spec fn wf(self) -> bool {
        self.prefix_len <= 32
    }

    /// The address.
    pub closed spec fn addr(self) -> Address {
        self.address
    }

    /// The prefix length.
    pub closed spec fn plen(self) -> u8 {
        self.prefix_len
    }

    /// The netmask of the block.
    pub open spec fn mask(self) -> u32 {
        netmask_bits(self.plen())
    }

    /// Whether the block holds `a`: the two agree on the prefix.
    pub open spec fn holds(self, a: Address) -> bool {
        self.addr().bits() & self.mask() == a.bits() & self.mask()
    }

    /// Create an IPv4 CIDR block from the given address and prefix length.
    pub fn new(address: Address, prefix_len: u8) -> (r: Cidr)
        requires
            prefix_len <= 32,
        ensures
            r.addr() == address,
            r.plen() == prefix_len,
    {
        Cidr { address, prefix_len }
    }

    /// Create an IPv4 CIDR block from the given address and network mask.
    pub fn from_netmask(addr: Address, netmask: Address) -> (r: Result<Cidr>)
        ensures
            r is Ok <==> exists|p: u8| 1 <= p <= 32 && netmask_bits(p) == netmask.bits(),
            r matches Ok(c) ==> c.addr() == addr && 1 <= c.plen() <= 32 && netmask_bits(c.plen())
                == netmask.bits(),
    {
        match netmask.prefix_len() {
            Some(p) => {
                if p == 0 {
                    proof {
                        assert forall|q: u8| 1 <= q <= 32 implies netmask_bits(q) != netmask.bits() by {
                            if netmask_bits(q) == netmask.bits() {
                                lemma_netmask_injective(p, q);
                            }
                        }
                    }
                    Err(Error)
                } else {
                    Ok(Cidr { address: addr, prefix_len: p })
                }
            },
            None => Err(Error),
        }
    }

    /// Return the address of this IPv4 CIDR block.
    pub fn address(&self) -> (r: Address)
        ensures
            r == self.addr(),
    {
        self.address
    }

    /// Return the prefix length of this IPv4 CIDR block.
    pub fn prefix_len(&self) -> (r: u8)
        ensures
            r == self.plen(),
            r <= 32,
    {
        proof {
            use_type_invariant(self);
        }
        self.prefix_len
    }

    /// Return the network mask of this IPv4 CIDR.
    pub fn netmask(&self) -> (r: Address)
        ensures
            r.bits() == self.mask(),
    {
        let p = self.prefix_len();
        Address::from_bits(netmask(p))
    }

    /// Return the broadcast address of this IPv4 CIDR, if the block has one.
    pub fn broadcast(&self) -> (r: Option<Address>)
        ensures
            self.plen() >= 31 ==> r is None,
            self.plen() < 31 ==> (r matches Some(a) && a.bits() == (self.addr().bits()
                & self.mask()) | (0xffff_ffffu32 >> (self.plen() as u32))),
    {
        let network = self.network();
        let p = network.prefix_len();
        if p == 31 || p == 32 {
            return None;
        }
        let network_number = network.address.to_bits();
        let number = network_number | 0xffff_ffffu32 >> (p as u32);
        Some(Address::from_bits(number))
    }

    /// Return the network block of this IPv4 CIDR.
    pub fn network(&self) -> (r: Cidr)
        ensures
            r.plen() == self.plen(),
            r.addr().bits() == self.addr().bits() & self.mask(),
    {
        let p = self.prefix_len();
        Cidr {
            address: Address::from_bits(self.address.to_bits() & netmask(p)),
            prefix_len: p,
        }
    }

    /// Query whether the subnetwork described by this IPv4 CIDR block contains
    /// the given address.
    pub fn contains_addr(&self, addr: &Address) -> (r: bool)
        ensures
            r == self.holds(*addr),
    {
        let m = netmask(self.prefix_len());
        self.address.to_bits() & m == addr.to_bits() & m
    }

    /// Query whether the subnetwork described by this IPv4 CIDR block contains
    /// the subnetwork described by the given IPv4 CIDR block.
    pub fn contains_subnet(&self, subnet: &Cidr) -> (r: bool)
        ensures
            r == (self.plen() <= subnet.plen() && self.holds(subnet.addr())),
    {
        self.prefix_len() <= subnet.prefix_len() && self.contains_addr(&subnet.address)
    }
}

/// A block holds its own address.
pub proof fn lemma_cidr_holds_own_address(c: Cidr)
    ensures
        c.holds(c.addr()),
{
}

/// A block and its network block hold the same addresses.
pub proof fn lemma_network_holds_same(c: Cidr, nw: Cidr, a: Address)
    requires
        nw.plen() == c.plen(),
        nw.addr().bits() == c.addr().bits() & c.mask(),
    ensures
        nw.holds(a) == c.holds(a),
{
    let x = c.addr().bits();
    let m = c.mask();
    assert((x & m) & m == x & m) by (bit_vector);
}

/// The broadcast address of a block lies within the block.
pub proof fn lemma_broadcast_held(c: Cidr, b: Address)
    requires
        c.plen() < 31,
        b.bits() == (c.addr().bits() & c.mask()) | (0xffff_ffffu32 >> (c.plen() as u32)),
    ensures
        c.holds(b),
{
    let x = c.addr().bits();
    let y = b.bits();
    let p = c.plen() as u32;
    if p == 0 {
        assert(c.mask() == 0);
        assert(x & 0 == 0u32) by (bit_vector);
        assert(y & 0 == 0u32) by (bit_vector);
    } else {
        let s = (32 - p) as u32;
        assert((y & (0xffff_ffffu32 << s)) == x & (0xffff_ffffu32 << s)) by (bit_vector)
            requires
                1 <= p <= 30,
                s == 32 - p,
                y == (x & (0xffff_ffffu32 << s)) | (0xffff_ffffu32 >> p),
        ;
    }
}

/// The identity of a datagram for reassembly.
#[derive(Debug, Eq, PartialEq, Ord, PartialOrd, Clone, Copy)]
pub struct Key {
    id: u16,
    src_addr: Address,
    dst_addr: Address,
    protocol: Protocol,
}

impl Key {
    /// The key with these parts.
    pub closed spec fn spec_new(id: u16, src_addr: Address, dst_addr: Address, protocol: Protocol) -> Key {
        Key { id, src_addr, dst_addr, protocol }
    }
}

// ---------------------------------------------------------------------------
// The header, as read from octets.
// ---------------------------------------------------------------------------

/// The version field.
pub open spec fn version_of(s: Seq<u8>) -> u8 {
    s[0] / 16
}

/// The header length, in octets, from the IHL field.
pub open spec fn header_len_of(s: Seq<u8>) -> u8 {
    ((s[0] % 16) * 4) as u8
}

/// The total length field.
pub open spec fn total_len_of(s: Seq<u8>) -> u16 {
    be16(s, 2)
}

/// The flags and fragment offset word.
pub open spec fn flags_of(s: Seq<u8>) -> u16 {
    be16(s, 6)
}

/// The "don't fragment" flag.
pub open spec fn dont_frag_of(s: Seq<u8>) -> bool {
    (flags_of(s) / 0x4000) % 2 == 1
}

/// The "more fragments" flag.
pub open spec fn more_frags_of(s: Seq<u8>) -> bool {
    (flags_of(s) / 0x2000) % 2 == 1
}

/// The fragment offset, in octets.
pub open spec fn frag_offset_of(s: Seq<u8>) -> u16 {
    ((flags_of(s) as int * 8) % 65536) as u16
}

/// The lengths in a header are consistent with each other and with the buffer.
pub open spec fn len_ok(s: Seq<u8>) -> bool {
    &&& s.len() >= HEADER_LEN
    &&& header_len_of(s) >= HEADER_LEN
    &&& header_len_of(s) <= total_len_of(s)
    &&& total_len_of(s) <= s.len()
}

/// The header checksum verifies.
pub open spec fn checksum_ok(s: Seq<u8>) -> bool {
    sums_to_ones(s.subrange(0, header_len_of(s) as int))
}

/// A read/write wrapper around an Internet Protocol version 4 packet buffer.
#[derive(Debug, PartialEq, Eq, Clone)]
pub struct Packet<T> {
    buffer: T,
}

impl<T> Packet<T> {
    /// The buffer underneath.
    pub closed spec fn inner(&self) -> T {
        self.buffer
    }

    /// Imbue a raw octet buffer with IPv4 packet structure.
    pub fn new_unchecked(buffer: T) -> (r: Packet<T>)
        ensures
            r.inner() == buffer,
    {
        Packet { buffer }
    }

    /// Consume the packet, returning the underlying buffer.
    pub fn into_inner(self) -> (r: T)
        ensures
            r == self.inner(),
    {
        self.buffer
    }
}

impl<T: Bytes> AsRef<[u8]> for Packet<T> {
    /// The octets of the packet.
    fn as_ref(&self) -> (r: &[u8])
        ensures
            r@ == self.data(),
    {
        self.buffer.as_bytes()
    }
}

impl<T: Bytes> Packet<T> {
    /// The octets of the packet.
    pub open spec fn data(&self) -> Seq<u8> {
        self.inner().bytes()
    }

    /// Shorthand for a combination of [`Packet::new_unchecked`] and [`Packet::check_len`].
    pub fn new_checked(buffer: T) -> (r: Result<Packet<T>>)
        ensures
            r is Ok <==> len_ok(buffer.bytes()),
            r matches Ok(p) ==> p.inner() == buffer,
    {
        let packet = Self::new_unchecked(buffer);
        match packet.check_len() {
            Ok(()) => Ok(packet),
            Err(e) => Err(e),
        }
    }

    /// Ensure that no accessor method will panic if called.
    /// Returns `Err(Error)` if the buffer is shorter than the header, than the
    /// IHL field says, or than the total length says; if the total length is
    /// shorter than the header; or if the IHL field is below the minimum.
    pub fn check_len(&self) -> (r: Result<()>)
        ensures
            r is Ok <==> len_ok(self.data()),
    {
        let len = self.buffer.byte_len();
        if len < HEADER_LEN {
            Err(Error)
        } else if len < self.header_len() as usize {
            Err(Error)
        } else if self.header_len() as u16 > self.total_len() {
            Err(Error)
        } else if len < self.total_len() as usize {
            Err(Error)
        } else if self.header_len() < MINIMUM_IHL_BYTES {
            Err(Error)
        } else {
            Ok(())
        }
    }

    /// Return the version field.
    pub fn version(&self) -> (r: u8)
        requires
            self.data().len() >= 1,
        ensures
            r == version_of(self.data()),
    {
        self.buffer.as_bytes()[0] / 16
    }

    /// Return the header length, in octets.
    pub fn header_len(&self) -> (r: u8)
        requires
            self.data().len() >= 1,
        ensures
            r == header_len_of(self.data()),
    {
        (self.buffer.as_bytes()[0] % 16) * 4
    }

    /// Return the Differential Services Code Point field.
    pub fn dscp(&self) -> (r: u8)
        requires
            self.data().len() >= 2,
        ensures
            r == self.data()[1] / 4,
    {
        self.buffer.as_bytes()[1] / 4
    }

    /// Return the Explicit Congestion Notification field.
    pub fn ecn(&self) -> (r: u8)
        requires
            self.data().len() >= 2,
        ensures
            r == self.data()[1] % 4,
    {
        self.buffer.as_bytes()[1] % 4
    }

    /// Return the total length field.
    pub fn total_len(&self) -> (r: u16)
        requires
            self.data().len() >= 4,
        ensures
            r == total_len_of(self.data()),
    {
        read_u16_at(self.buffer.as_bytes(), 2)
    }

    /// Return the fragment identification field.
    pub fn ident(&self) -> (r: u16)
        requires
            self.data().len() >= 6,
        ensures
            r == be16(self.data(), 4),
    {
        read_u16_at(self.buffer.as_bytes(), 4)
    }

    /// Return the "don't fragment" flag.
    pub fn dont_frag(&self) -> (r: bool)
        requires
            self.data().len() >= 8,
        ensures
            r == dont_frag_of(self.data()),
    {
        (read_u16_at(self.buffer.as_bytes(), 6) / 0x4000) % 2 == 1
    }

    /// Return the "more fragments" flag.
    pub fn more_frags(&self) -> (r: bool)
        requires
            self.data().len() >= 8,
        ensures
            r == more_frags_of(self.data()),
    {
        (read_u16_at(self.buffer.as_bytes(), 6) / 0x2000) % 2 == 1
    }

    /// Return the fragment offset, in octets.
    pub fn frag_offset(&self) -> (r: u16)
        requires
            self.data().len() >= 8,
        ensures
            r == frag_offset_of(self.data()),
    {
        let raw = read_u16_at(self.buffer.as_bytes(), 6);
        ((raw % 8192) * 8) as u16
    }

    /// Return the time to live field.
    pub fn hop_limit(&self) -> (r: u8)
        requires
            self.data().len() >= 9,
        ensures
            r == self.data()[8],
    {
        self.buffer.as_bytes()[8]
    }

    /// Return the next_header (protocol) field.
    pub fn next_header(&self) -> (r: Protocol)
        requires
            self.data().len() >= 10,
        ensures
            r == Protocol::from_raw(self.data()[9]),
    {
        Protocol::from(self.buffer.as_bytes()[9])
    }

    /// Return the header checksum field.
    pub fn checksum(&self) -> (r: u16)
        requires
            self.data().len() >= 12,
        ensures
            r == be16(self.data(), 10),
    {
        read_u16_at(self.buffer.as_bytes(), 10)
    }

    /// Return the source address field.
    pub fn src_addr(&self) -> (r: Address)
        requires
            self.data().len() >= 16,
        ensures
            r == Address::from_seq(self.data().subrange(12, 16)),
            r@ == self.data().subrange(12, 16),
    {
        let data = self.buffer.as_bytes();
        Address::from_bytes(&data[12..16])
    }

    /// Return the destination address field.
    pub fn dst_addr(&self) -> (r: Address)
        requires
            self.data().len() >= 20,
        ensures
            r == Address::from_seq(self.data().subrange(16, 20)),
            r@ == self.data().subrange(16, 20),
    {
        let data = self.buffer.as_bytes();
        Address::from_bytes(&data[16..20])
    }

    /// Validate the header checksum.
    pub fn verify_checksum(&self) -> (r: bool)
        requires
            self.data().len() >= 1,
            header_len_of(self.data()) <= self.data().len(),
        ensures
            r == checksum_ok(self.data()),
    {
        let data = self.buffer.as_bytes();
        crate::checksum::data(crate::buf::prefix(data, self.header_len() as usize)) == 0xffff
    }

    /// The reassembly key of the packet.
    pub fn get_key(&self) -> (r: Key)
        requires
            self.data().len() >= 20,
        ensures
            r == Key::spec_new(
                be16(self.data(), 4),
                Address::from_seq(self.data().subrange(12, 16)),
                Address::from_seq(self.data().subrange(16, 20)),
                Protocol::from_raw(self.data()[9]),
            ),
    {
        Key {
            id: self.ident(),
            src_addr: self.src_addr(),
            dst_addr: self.dst_addr(),
            protocol: self.next_header(),
        }
    }

    /// Return the payload: the octets between the header and the total length.
    pub fn payload(&self) -> (r: &[u8])
        requires
            self.data().len() >= 4,
            header_len_of(self.data()) <= total_len_of(self.data()) <= self.data().len(),
        ensures
            r@ == self.data().subrange(
                header_len_of(self.data()) as int,
                total_len_of(self.data()) as int,
            ),
    {
        let start = self.header_len() as usize;
        let end = self.total_len() as usize;
        let data = self.buffer.as_bytes();
        &data[start..end]
    }
}

impl<T: BytesMut> Packet<T> {
    /// Set the version field.
    pub fn set_version(&mut self, value: u8)
        requires
            old(self).data().len() >= 1,
        ensures
            final(self).data() == old(self).data().update(
                0,
                (old(self).data()[0] % 16 + (value % 16) * 16) as u8,
            ),
    {
        let b = self.buffer.as_bytes()[0];
        self.buffer.set_byte(0, b % 16 + (value % 16) * 16);
    }

    /// Set the header length, in octets; it is stored as a count of
    /// four-octet words.
    pub fn set_header_len(&mut self, value: u8)
        requires
            old(self).data().len() >= 1,
        ensures
            final(self).data() == old(self).data().update(
                0,
                ((old(self).data()[0] / 16) * 16 + (value / 4) % 16) as u8,
            ),
    {
        let b = self.buffer.as_bytes()[0];
        self.buffer.set_byte(0, (b / 16) * 16 + (value / 4) % 16);
    }

    /// Set the Differential Services Code Point field.
    pub fn set_dscp(&mut self, value: u8)
        requires
            old(self).data().len() >= 2,
        ensures
            final(self).data() == old(self).data().update(
                1,
                (old(self).data()[1] % 4 + (value % 64) * 4) as u8,
            ),
    {
        let b = self.buffer.as_bytes()[1];
        self.buffer.set_byte(1, b % 4 + (value % 64) * 4);
    }

    /// Set the Explicit Congestion Notification field.
    pub fn set_ecn(&mut self, value: u8)
        requires
            old(self).data().len() >= 2,
        ensures
            final(self).data() == old(self).data().update(
                1,
                ((old(self).data()[1] / 4) * 4 + value % 4) as u8,
            ),
    {
        let b = self.buffer.as_bytes()[1];
        self.buffer.set_byte(1, (b / 4) * 4 + value % 4);
    }

    /// Set the total length field.
    pub fn set_total_len(&mut self, value: u16)
        requires
            old(self).data().len() >= 4,
        ensures
            final(self).data() == put_be16(old(self).data(), 2, value),
    {
        self.buffer.set_u16(2, value);
    }

    /// Set the fragment identification field.
    pub fn set_ident(&mut self, value: u16)
        requires
            old(self).data().len() >= 6,
        ensures
            final(self).data() == put_be16(old(self).data(), 4, value),
    {
        self.buffer.set_u16(4, value);
    }

    /// Clear the entire flags field.
    pub fn clear_flags(&mut self)
        requires
            old(self).data().len() >= 8,
        ensures
            final(self).data() == put_be16(old(self).data(), 6, flags_of(old(self).data()) % 0x2000),
    {
        let raw = read_u16_at(self.buffer.as_bytes(), 6);
        self.buffer.set_u16(6, raw % 0x2000);
    }

    /// Set the "don't fragment" flag.
    pub fn set_dont_frag(&mut self, value: bool)
        requires
            old(self).data().len() >= 8,
        ensures
            final(self).data() == put_be16(
                old(self).data(),
                6,
                ((flags_of(old(self).data()) / 0x8000) * 0x8000 + (if value {
                    0x4000int
                } else {
                    0
                }) + flags_of(old(self).data()) % 0x4000) as u16,
            ),
    {
        let raw = read_u16_at(self.buffer.as_bytes(), 6);
        let bit: u16 = if value {
            0x4000
        } else {
            0
        };
        self.buffer.set_u16(6, (raw / 0x8000) * 0x8000 + bit + raw % 0x4000);
    }

    /// Set the "more fragments" flag.
    pub fn set_more_frags(&mut self, value: bool)
        requires
            old(self).data().len() >= 8,
        ensures
            final(self).data() == put_be16(
                old(self).data(),
                6,
                ((flags_of(old(self).data()) / 0x4000) * 0x4000 + (if value {
                    0x2000int
                } else {
                    0
                }) + flags_of(old(self).data()) % 0x2000) as u16,
            ),
    {
        let raw = read_u16_at(self.buffer.as_bytes(), 6);
        let bit: u16 = if value {
            0x2000
        } else {
            0
        };
        self.buffer.set_u16(6, (raw / 0x4000) * 0x4000 + bit + raw % 0x2000);
    }

    /// Set the fragment offset, in octets.
    pub fn set_frag_offset(&mut self, value: u16)
        requires
            old(self).data().len() >= 8,
        ensures
            final(self).data() == put_be16(
                old(self).data(),
                6,
                ((flags_of(old(self).data()) / 0x2000) * 0x2000 + value / 8) as u16,
            ),
    {
        let raw = read_u16_at(self.buffer.as_bytes(), 6);
        self.buffer.set_u16(6, (raw / 0x2000) * 0x2000 + value / 8);
    }

    /// Set the time to live field.
    pub fn set_hop_limit(&mut self, value: u8)
        requires
            old(self).data().len() >= 9,
        ensures
            final(self).data() == old(self).data().update(8, value),
    {
        self.buffer.set_byte(8, value);
    }

    /// Set the next header (protocol) field.
    pub fn set_next_header(&mut self, value: Protocol)
        requires
            old(self).data().len() >= 10,
        ensures
            final(self).data() == old(self).data().update(9, value.raw()),
    {
        self.buffer.set_byte(9, value.into());
    }

    /// Set the header checksum field.
    pub fn set_checksum(&mut self, value: u16)
        requires
            old(self).data().len() >= 12,
        ensures
            final(self).data() == put_be16(old(self).data(), 10, value),
    {
        self.buffer.set_u16(10, value);
    }

    /// Set the source address field.
    pub fn set_src_addr(&mut self, value: Address)
        requires
            old(self).data().len() >= 16,
        ensures
            final(self).data() == splice(old(self).data(), 12, value@),
    {
        let o = value.octets();
        self.buffer.copy_in(12, o.as_slice());
    }

    /// Set the destination address field.
    pub fn set_dst_addr(&mut self, value: Address)
        requires
            old(self).data().len() >= 20,
        ensures
            final(self).data() == splice(old(self).data(), 16, value@),
    {
        let o = value.octets();
        self.buffer.copy_in(16, o.as_slice());
    }

    /// Compute and fill in the header checksum over the first `header_len`
    /// octets.
    pub fn fill_checksum_with_header_len(&mut self, header_len: usize)
        requires
            old(self).data().len() >= 12,
            header_len <= old(self).data().len(),
        ensures
            final(self).data() == put_be16(
                put_be16(old(self).data(), 10, 0),
                10,
                complement(ones_sum(put_be16(old(self).data(), 10, 0).subrange(0, header_len as int))),
            ),
            header_len >= 12 ==> sums_to_ones(final(self).data().subrange(0, header_len as int)),
    {
        self.set_checksum(0);
        let c = {
            let data = self.buffer.as_bytes();
            0xffff - crate::checksum::data(crate::buf::prefix(data, header_len))
        };
        self.set_checksum(c);
        proof {
            lemma_fill_prefix(old(self).data(), header_len as int);
        }
    }

    /// Compute and fill in the header checksum.
    pub fn fill_checksum(&mut self)
        requires
            old(self).data().len() >= 12,
            header_len_of(old(self).data()) <= old(self).data().len(),
        ensures
            final(self).data() == put_be16(
                put_be16(old(self).data(), 10, 0),
                10,
                complement(
                    ones_sum(
                        put_be16(old(self).data(), 10, 0).subrange(
                            0,
                            header_len_of(old(self).data()) as int,
                        ),
                    ),
                ),
            ),
            header_len_of(old(self).data()) >= 12 ==> checksum_ok(final(self).data()),
    {
        let hl = self.header_len() as usize;
        self.fill_checksum_with_header_len(hl);
    }
}

/// The checksum placed at offset 10 over a prefix that covers it makes the
/// prefix sum to all ones.
proof fn lemma_fill_prefix(s: Seq<u8>, hl: int)
    requires
        12 <= s.len(),
        0 <= hl <= s.len(),
    ensures
        hl >= 12 ==> sums_to_ones(
            put_be16(
                put_be16(s, 10, 0),
                10,
                complement(ones_sum(put_be16(s, 10, 0).subrange(0, hl))),
            ).subrange(0, hl),
        ),
{
    if hl >= 12 {
        let p = s.subrange(0, hl);
        let c = complement(ones_sum(put_be16(s, 10, 0).subrange(0, hl)));
        assert(put_be16(s, 10, 0).subrange(0, hl) =~= put_be16(p, 10, 0));
        assert(put_be16(put_be16(s, 10, 0), 10, c).subrange(0, hl) =~= put_be16(
            put_be16(p, 10, 0),
            10,
            c,
        ));
        lemma_fill_then_verify(p, 10);
    }
}

impl<T: BytesSliceMut> Packet<T> {
    /// Return a mutable pointer to the payload.
    pub fn payload_mut(&mut self) -> (r: &mut [u8])
        requires
            old(self).data().len() >= 4,
            header_len_of(old(self).data()) <= total_len_of(old(self).data()) <= old(
                self,
            ).data().len(),
        ensures
            r@ == old(self).data().subrange(
                header_len_of(old(self).data()) as int,
                total_len_of(old(self).data()) as int,
            ),
            final(self).data() == old(self).data().subrange(
                0,
                header_len_of(old(self).data()) as int,
            ) + final(r)@ + old(self).data().subrange(
                total_len_of(old(self).data()) as int,
                old(self).data().len() as int,
            ),
    {
        let start = self.header_len() as usize;
        let end = self.total_len() as usize;
        let data = self.buffer.as_bytes_mut();
        let (head, _rest) = data.split_at_mut(end);
        let (_hdr, payload) = head.split_at_mut(start);
        payload
    }
}

/// A high-level representation of an Internet Protocol version 4 packet header.
#[derive(Debug, PartialEq, Eq, Clone, Copy)]
pub struct Repr {
    pub src_addr: Address,
    pub dst_addr: Address,
    pub next_header: Protocol,
    pub payload_len: usize,
    pub hop_limit: u8,
}

impl Repr {
    /// What parsing `s` gives, with or without checksum verification.
    pub open spec fn parse_spec(s: Seq<u8>, verify: bool) -> Result<Repr> {
        if !len_ok(s) || version_of(s) != 4 || (verify && !checksum_ok(s)) || more_frags_of(s)
            || frag_offset_of(s) != 0 {
            Err(Error)
        } else {
            Ok(
                Repr {
                    src_addr: Address::from_seq(s.subrange(12, 16)),
                    dst_addr: Address::from_seq(s.subrange(16, 20)),
                    next_header: Protocol::from_raw(s[9]),
                    payload_len: (total_len_of(s) - header_len_of(s)) as usize,
                    hop_limit: s[8],
                },
            )
        }
    }

    /// The total length field this header is emitted with.
    pub open spec fn total_len_spec(self) -> u16 {
        (20 + (self.payload_len as u16)) as u16
    }

    /// The twenty header octets this representation is emitted as, with a
    /// zero checksum.
    pub open spec fn header_spec(self) -> Seq<u8> {
        seq![
            0x45u8,
            0,
            (self.total_len_spec() / 256) as u8,
            (self.total_len_spec() % 256) as u8,
            0,
            0,
            0x40,
            0,
            self.hop_limit,
            self.next_header.raw(),
            0,
            0,
        ] + self.src_addr@ + self.dst_addr@
    }

    /// `s` with this header emitted over its first twenty octets, the
    /// checksum filled in or not.
    pub open spec fn emit_spec(self, s: Seq<u8>, fill: bool) -> Seq<u8> {
        let z = splice(s, 0, self.header_spec());
        if fill {
            put_be16(z, 10, complement(ones_sum(z.subrange(0, 20))))
        } else {
            z
        }
    }

    /// Parse an Internet Protocol version 4 packet and return a high-level
    /// representation.
    pub fn parse<T: Bytes>(packet: &Packet<T>, checksum_caps: &ChecksumCapabilities) -> (r: Result<Repr>)
        ensures
            r == Repr::parse_spec(packet.data(), checksum_caps.ipv4.spec_rx()),
    {
        match packet.check_len() {
            Ok(()) => {},
            Err(e) => return Err(e),
        }
        if packet.version() != 4 {
            return Err(Error);
        }
        if checksum_caps.ipv4.rx() && !packet.verify_checksum() {
            return Err(Error);
        }
        if packet.more_frags() || packet.frag_offset() != 0 {
            return Err(Error);
        }
        let payload_len = packet.total_len() as usize - packet.header_len() as usize;
        Ok(
            Repr {
                src_addr: packet.src_addr(),
                dst_addr: packet.dst_addr(),
                next_header: packet.next_header(),
                payload_len,
                hop_limit: packet.hop_limit(),
            },
        )
    }

    /// Return the length of a header that will be emitted from this high-level
    /// representation.
    pub fn buffer_len(&self) -> (r: usize)
        ensures
            r == HEADER_LEN,
    {
        HEADER_LEN
    }

    /// Emit a high-level representation into an Internet Protocol version 4
    /// packet.
    pub fn emit<T: BytesMut>(&self, packet: &mut Packet<T>, checksum_caps: &ChecksumCapabilities)
        requires
            old(packet).data().len() >= HEADER_LEN,
            (self.payload_len as u16) <= 65515,
        ensures
            final(packet).data() == self.emit_spec(old(packet).data(), checksum_caps.ipv4.spec_tx()),
    {
        let ghost s0 = packet.data();
        packet.set_version(4);
        packet.set_header_len(20);
        packet.set_dscp(0);
        packet.set_ecn(0);
        let total_len = packet.header_len() as u16 + self.payload_len as u16;
        packet.set_total_len(total_len);
        packet.set_ident(0);
        packet.clear_flags();
        packet.set_more_frags(false);
        packet.set_dont_frag(true);
        packet.set_frag_offset(0);
        packet.set_hop_limit(self.hop_limit);
        packet.set_next_header(self.next_header);
        packet.set_src_addr(self.src_addr);
        packet.set_dst_addr(self.dst_addr);
        packet.set_checksum(0);
        proof {
            Address::lemma_view(self.src_addr);
            Address::lemma_view(self.dst_addr);
            assert(packet.data() =~= splice(s0, 0, self.header_spec()));
        }
        if checksum_caps.ipv4.tx() {
            packet.fill_checksum_with_header_len(20);
            proof {
                let z = splice(s0, 0, self.header_spec());
                assert(put_be16(z, 10, 0) =~= z);
            }
        }
    }
}

/// What parsing any header that parses gives, in terms of its octets: the
/// payload is what the total length field (octets 2 and 3) counts beyond the
/// header length that the low nibble of octet 0 gives in units of four,
/// options included, and it lies within the buffer; the hop limit is octet
/// 8, the protocol octet 9, and the addresses octets 12 to 20.
pub proof fn lemma_parse_fields(s: Seq<u8>, verify: bool)
    requires
        Repr::parse_spec(s, verify) is Ok,
    ensures
        ({
            let r = Repr::parse_spec(s, verify)->Ok_0;
            &&& r.payload_len == s[2] as int * 256 + s[3] as int - (s[0] % 16) as int * 4
            &&& (s[0] % 16) as int * 4 + r.payload_len <= s.len()
            &&& 20 <= (s[0] % 16) as int * 4
            &&& r.hop_limit == s[8]
            &&& r.next_header.raw() == s[9]
            &&& r.src_addr@ == s.subrange(12, 16)
            &&& r.dst_addr@ == s.subrange(16, 20)
        }),
{
    Address::lemma_from_seq(s.subrange(12, 16));
    Address::lemma_from_seq(s.subrange(16, 20));
    Protocol::lemma_raw_from_raw(s[9]);
}

/// Parsing the header that was emitted gives back the representation: when
/// the buffer holds the payload, the payload length fits the total length
/// field, the protocol is canonical, and the checksum is filled in whenever it
/// is verified.
pub proof fn lemma_emit_then_parse(r: Repr, s: Seq<u8>, tx: bool, rx: bool)
    requires
        s.len() >= HEADER_LEN + r.payload_len,
        r.payload_len <= 65515,
        r.next_header.is_canonical(),
        rx ==> tx,
    ensures
        Repr::parse_spec(r.emit_spec(s, tx), rx) == Ok::<Repr, Error>(r),
        r.emit_spec(s, tx).len() == s.len(),
{
    let h = r.header_spec();
    let z = splice(s, 0, h);
    let t = r.emit_spec(s, tx);
    Address::lemma_view(r.src_addr);
    Address::lemma_view(r.dst_addr);
    assert(h.len() == 20);
    let tl = r.total_len_spec();
    assert(tl == 20 + r.payload_len);
    assert(z[0] == 0x45u8 && z[2] == (tl / 256) as u8 && z[3] == (tl % 256) as u8);
    assert(z[6] == 0x40u8 && z[7] == 0u8 && z[8] == r.hop_limit && z[9] == r.next_header.raw());
    assert(z[10] == 0u8 && z[11] == 0u8);
    assert(z.subrange(12, 16) =~= r.src_addr@);
    assert(z.subrange(16, 20) =~= r.dst_addr@);
    if tx {
        assert(put_be16(z, 10, 0) =~= z);
        lemma_fill_prefix(z, 20);
        assert(t.subrange(12, 16) =~= z.subrange(12, 16));
        assert(t.subrange(16, 20) =~= z.subrange(16, 20));
    }
    assert(t[0] == 0x45u8 && t[2] == z[2] && t[3] == z[3] && t[6] == 0x40u8 && t[7] == 0u8);
    assert(t[8] == r.hop_limit && t[9] == r.next_header.raw());
    assert(version_of(t) == 4);
    assert(header_len_of(t) == 20);
    assert(total_len_of(t) == tl);
    assert(flags_of(t) == 0x4000);
    assert(!more_frags_of(t));
    assert(frag_offset_of(t) == 0);
    assert(t.subrange(12, 16) =~= r.src_addr@);
    assert(t.subrange(16, 20) =~= r.dst_addr@);
    assert(tx ==> checksum_ok(t));
}

/// Emitting into the first twenty octets alone and then copying them over
/// the buffer is emitting into the buffer.
pub proof fn lemma_emit_prefix(r: Repr, s: Seq<u8>, fill: bool)
    requires
        s.len() >= HEADER_LEN,
    ensures
        splice(s, 0, r.emit_spec(s.subrange(0, 20), fill)) == r.emit_spec(s, fill),
{
    let h = r.header_spec();
    Address::lemma_view(r.src_addr);
    Address::lemma_view(r.dst_addr);
    let z = splice(s, 0, h);
    let z2 = splice(s.subrange(0, 20), 0, h);
    assert(z2 =~= h);
    assert(z.subrange(0, 20) =~= h);
    assert(splice(s, 0, z2) =~= z);
    assert(z2.subrange(0, 20) =~= h);
    if fill {
        let c = complement(ones_sum(h));
        assert(splice(s, 0, put_be16(z2, 10, c)) =~= put_be16(z, 10, c));
        assert(r.emit_spec(s, fill) == put_be16(z, 10, c));
        assert(r.emit_spec(s.subrange(0, 20), fill) == put_be16(z2, 10, c));
    }
}

/// Writing the version leaves the header length as it was, and writing a
/// header length of at most sixty octets reads back that length rounded
/// down to whole words of four.
pub proof fn lemma_header_len_writes(s: Seq<u8>, version: u8, value: u8)
    requires
        s.len() >= 1,
        value <= 60,
    ensures
        header_len_of(s.update(0, (s[0] % 16 + (version % 16) * 16) as u8)) == header_len_of(s),
        header_len_of(s.update(0, ((s[0] / 16) * 16 + (value / 4) % 16) as u8)) == value / 4 * 4,
{
}

/// Writing any octet but the first leaves the header length as it was, and
/// writing any octet outside the total length field leaves the total length
/// as it was.
pub proof fn lemma_lengths_kept(s: Seq<u8>, i: int, v: u8)
    requires
        s.len() >= 4,
        0 <= i < s.len(),
    ensures
        i != 0 ==> header_len_of(s.update(i, v)) == header_len_of(s),
        i != 2 && i != 3 ==> total_len_of(s.update(i, v)) == total_len_of(s),
{
}

} // verus!
