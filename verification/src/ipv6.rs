//! Internet Protocol version 6 addresses.

use vstd::prelude::*;
use crate::buf::{be16, put_be16, splice, Bytes, BytesMut, BytesSliceMut, read_u16_at};
use crate::error::{Error, Result};
use crate::ip::IpProtocol;

verus! {

broadcast use vstd::array::group_array_axioms;

/// A sixteen-octet IPv6 address.
#[derive(Debug, Hash, PartialEq, Eq, PartialOrd, Ord, Clone, Copy, Default)]
pub struct Address {
    octets: [u8; 16],
}

impl View for Address {
    type V = Seq<u8>;

    closed spec fn view(&self) -> Seq<u8> {
        self.octets@
    }
}

/// The octets of the address whose eight big-endian segments are given.
pub open spec fn segments_octets(s: Seq<u16>) -> Seq<u8> {
    Seq::new(16, |i: int| if i % 2 == 0 { (s[i / 2] / 256) as u8 } else { (s[i / 2] % 256) as u8 })
}

impl Address {
    /// The address whose octets are `s`, for a sixteen-octet `s`.
    pub closed spec fn from_seq(s: Seq<u8>) -> Address {
        Address {
            octets: [
                s[0],
                s[1],
                s[2],
                s[3],
                s[4],
                s[5],
                s[6],
                s[7],
                s[8],
                s[9],
                s[10],
                s[11],
                s[12],
                s[13],
                s[14],
                s[15],
            ],
        }
    }

    /// Every address has sixteen octets, and is determined by them.
    pub broadcast proof fn lemma_view(a: Address)
        ensures
            #[trigger] a@.len() == 16,
            Address::from_seq(a@) == a,
    {
        assert(Address::from_seq(a@).octets =~= a.octets);
    }

    /// The address built from sixteen octets has those octets.
    pub broadcast proof fn lemma_from_seq(s: Seq<u8>)
        requires
            s.len() == 16,
        ensures
            #[trigger] Address::from_seq(s)@ == s,
    {
        assert(Address::from_seq(s)@ =~= s);
    }

    /// Construct an IPv6 address from its eight 16-bit segments, most
    /// significant first.
    pub fn new(a0: u16, a1: u16, a2: u16, a3: u16, a4: u16, a5: u16, a6: u16, a7: u16) -> (r:
        Address)
        ensures
            r@ == segments_octets(seq![a0, a1, a2, a3, a4, a5, a6, a7]),
    {
        let r = Address {
            octets: [
                (a0 / 256) as u8,
                (a0 % 256) as u8,
                (a1 / 256) as u8,
                (a1 % 256) as u8,
                (a2 / 256) as u8,
                (a2 % 256) as u8,
                (a3 / 256) as u8,
                (a3 % 256) as u8,
                (a4 / 256) as u8,
                (a4 % 256) as u8,
                (a5 / 256) as u8,
                (a5 % 256) as u8,
                (a6 / 256) as u8,
                (a6 % 256) as u8,
                (a7 / 256) as u8,
                (a7 % 256) as u8,
            ],
        };
        assert(r@ =~= segments_octets(seq![a0, a1, a2, a3, a4, a5, a6, a7]));
        r
    }

    /// The unspecified address, `::`.
    pub fn unspecified() -> (r: Address)
        ensures
            r@ == Seq::new(16, |i: int| 0u8),
    {
        let r = Address { octets: [0u8; 16] };
        assert(r@ =~= Seq::new(16, |i: int| 0u8));
        r
    }

    /// The loopback address, `::1`.
    pub fn localhost() -> (r: Address)
        ensures
            r@ == Seq::new(16, |i: int| if i == 15 { 1u8 } else { 0u8 }),
    {
        let r = Address::new(0, 0, 0, 0, 0, 0, 0, 1);
        assert(r@ =~= Seq::new(16, |i: int| if i == 15 { 1u8 } else { 0u8 }));
        r
    }

    /// Construct an IPv6 address from an array of octets.
    pub fn from_octets(octets: [u8; 16]) -> (r: Address)
        ensures
            r@ == octets@,
    {
        Address { octets }
    }

    /// Construct an IPv6 address from a sequence of sixteen octets.
    pub fn from_bytes(data: &[u8]) -> (r: Address)
        requires
            data@.len() == 16,
        ensures
            r@ == data@,
            r == Address::from_seq(data@),
    {
        let r = Address {
            octets: [
                data[0],
                data[1],
                data[2],
                data[3],
                data[4],
                data[5],
                data[6],
                data[7],
                data[8],
                data[9],
                data[10],
                data[11],
                data[12],
                data[13],
                data[14],
                data[15],
            ],
        };
        assert(r@ =~= data@);
        proof {
            Address::lemma_view(r);
        }
        r
    }

    /// Return the address as an array of octets.
    pub fn octets(&self) -> (r: [u8; 16])
        ensures
            r@ == self@,
    {
        self.octets
    }

    /// Return the address as a sequence of octets.
    pub fn as_bytes(&self) -> (r: &[u8])
        ensures
            r@ == self@,
    {
        self.octets.as_slice()
    }

    /// Query whether the address is a multicast address, `ff00::/8`.
    pub fn is_multicast(&self) -> (r: bool)
        ensures
            r == (self@[0] == 0xff),
    {
        self.octets[0] == 0xff
    }

    /// Query whether the address is a link-local unicast address,
    /// `fe80::/10`.
    pub fn is_link_local(&self) -> (r: bool)
        ensures
            r == (self@[0] == 0xfe && self@[1] / 64 == 2),
    {
        self.octets[0] == 0xfe && self.octets[1] / 64 == 2
    }

    /// Query whether the address is the unspecified address, `::`.
    pub fn is_unspecified(&self) -> (r: bool)
        ensures
            r == (self@ == Seq::new(16, |i: int| 0u8)),
    {
        let mut i: usize = 0;
        while i < 16
            invariant
                i <= 16,
                self@.len() == 16,
                forall|j: int| 0 <= j < i ==> self@[j] == 0,
            decreases 16 - i,
        {
            if self.octets[i] != 0 {
                assert(self@ != Seq::new(16, |k: int| 0u8) ) by {
                    assert(self@[i as int] != Seq::new(16, |k: int| 0u8)[i as int]);
                }
                return false;
            }
            i = i + 1;
        }
        assert(self@ =~= Seq::new(16, |k: int| 0u8));
        true
    }
}

/// The link-local all-nodes multicast address, `ff02::1`.
pub fn link_local_all_nodes() -> (r: Address)
    ensures
        r@ == segments_octets(seq![0xff02u16, 0, 0, 0, 0, 0, 0, 1]),
{
    Address::new(0xff02, 0, 0, 0, 0, 0, 0, 1)
}

/// The link-local all-routers multicast address, `ff02::2`.
pub fn link_local_all_routers() -> (r: Address)
    ensures
        r@ == segments_octets(seq![0xff02u16, 0, 0, 0, 0, 0, 0, 2]),
{
    Address::new(0xff02, 0, 0, 0, 0, 0, 0, 2)
}

/// The length of the fixed IPv6 header.
pub const HEADER_LEN: usize = 40;

/// The smallest MTU that every IPv6 link must carry.
pub const MIN_MTU: usize = 1280;

/// The buffer holds the fixed header and the payload it declares.
pub open spec fn len_ok(s: Seq<u8>) -> bool {
    s.len() >= HEADER_LEN && s.len() >= HEADER_LEN + be16(s, 4)
}

/// A read/write wrapper around an Internet Protocol version 6 packet buffer.
#[derive(Debug, PartialEq, Eq, Clone)]
pub struct Packet<T> {
    buffer: T,
}

impl<T> Packet<T> {
    /// The buffer underneath.
    pub closed spec fn inner(&self) -> T {
        self.buffer
    }

    /// Create a raw octet buffer with an IPv6 packet structure.
    pub fn new_unchecked(buffer: T) -> (r: Packet<T>)
        ensures
            r.inner() == buffer,
    {
        Packet { buffer }
    }

    /// Consume the packet, returning the underlying buffer.
    pub fn into_inner(self) -> (r: T)
        ensures
            r == self.inner(),
    {
        self.buffer
    }
}

impl<T: Bytes> Packet<T> {
    /// The octets of the packet.
    pub open spec fn data(&self) -> Seq<u8> {
        self.inner().bytes()
    }

    /// Shorthand for a combination of [`Packet::new_unchecked`] and [`Packet::check_len`].
    pub fn new_checked(buffer: T) -> (r: Result<Packet<T>>)
        ensures
            r is Ok <==> len_ok(buffer.bytes()),
            r matches Ok(p) ==> p.inner() == buffer,
    {
        let packet = Self::new_unchecked(buffer);
        match packet.check_len() {
            Ok(()) => Ok(packet),
            Err(e) => Err(e),
        }
    }

    /// Ensure that no accessor method will panic if called.
    /// Returns `Err(Error)` if the buffer is shorter than the fixed header
    /// and the payload it declares.
    pub fn check_len(&self) -> (r: Result<()>)
        ensures
            r is Ok <==> len_ok(self.data()),
    {
        let len = self.buffer.byte_len();
        if len < HEADER_LEN || len < HEADER_LEN + self.payload_len() as usize {
            Err(Error)
        } else {
            Ok(())
        }
    }

    /// Return the version field.
    pub fn version(&self) -> (r: u8)
        requires
            self.data().len() >= 1,
        ensures
            r == self.data()[0] / 16,
    {
        self.buffer.as_bytes()[0] / 16
    }

    /// Return the payload length field.
    pub fn payload_len(&self) -> (r: u16)
        requires
            self.data().len() >= 6,
        ensures
            r == be16(self.data(), 4),
    {
        read_u16_at(self.buffer.as_bytes(), 4)
    }

    /// Return the next header field.
    pub fn next_header(&self) -> (r: IpProtocol)
        requires
            self.data().len() >= 7,
        ensures
            r == IpProtocol::from_raw(self.data()[6]),
    {
        IpProtocol::from(self.buffer.as_bytes()[6])
    }

    /// Return the hop limit field.
    pub fn hop_limit(&self) -> (r: u8)
        requires
            self.data().len() >= 8,
        ensures
            r == self.data()[7],
    {
        self.buffer.as_bytes()[7]
    }

    /// Return the source address field.
    pub fn src_addr(&self) -> (r: Address)
        requires
            self.data().len() >= 24,
        ensures
            r == Address::from_seq(self.data().subrange(8, 24)),
    {
        Address::from_bytes(crate::buf::sub(self.buffer.as_bytes(), 8, 16))
    }

    /// Return the destination address field.
    pub fn dst_addr(&self) -> (r: Address)
        requires
            self.data().len() >= 40,
        ensures
            r == Address::from_seq(self.data().subrange(24, 40)),
    {
        Address::from_bytes(crate::buf::sub(self.buffer.as_bytes(), 24, 16))
    }
}

impl<T: BytesMut> Packet<T> {
    /// Set the version field.
    pub fn set_version(&mut self, value: u8)
        requires
            old(self).data().len() >= 1,
        ensures
            final(self).data() == old(self).data().update(
                0,
                ((value % 16) * 16 + old(self).data()[0] % 16) as u8,
            ),
    {
        let b = self.buffer.as_bytes()[0];
        self.buffer.set_byte(0, (value % 16) * 16 + b % 16);
    }

    /// Set the traffic class field.
    pub fn set_traffic_class(&mut self, value: u8)
        requires
            old(self).data().len() >= 2,
        ensures
            final(self).data() == old(self).data().update(
                0,
                (old(self).data()[0] / 16 * 16 + value / 16) as u8,
            ).update(1, ((value % 16) * 16 + old(self).data()[1] % 16) as u8),
    {
        let b0 = self.buffer.as_bytes()[0];
        let b1 = self.buffer.as_bytes()[1];
        self.buffer.set_byte(0, b0 / 16 * 16 + value / 16);
        self.buffer.set_byte(1, (value % 16) * 16 + b1 % 16);
    }

    /// Set the flow label field; only its low twenty bits are kept.
    pub fn set_flow_label(&mut self, value: u32)
        requires
            old(self).data().len() >= 4,
        ensures
            final(self).data() == put_be16(
                old(self).data().update(
                    1,
                    (old(self).data()[1] / 16 * 16 + (value / 65536) % 16) as u8,
                ),
                2,
                (value % 65536) as u16,
            ),
    {
        let b1 = self.buffer.as_bytes()[1];
        self.buffer.set_byte(1, b1 / 16 * 16 + ((value / 65536) % 16) as u8);
        self.buffer.set_u16(2, (value % 65536) as u16);
    }

    /// Set the payload length field.
    pub fn set_payload_len(&mut self, value: u16)
        requires
            old(self).data().len() >= 6,
        ensures
            final(self).data() == put_be16(old(self).data(), 4, value),
    {
        self.buffer.set_u16(4, value);
    }

    /// Set the next header field.
    pub fn set_next_header(&mut self, value: IpProtocol)
        requires
            old(self).data().len() >= 7,
        ensures
            final(self).data() == old(self).data().update(6, value.raw()),
    {
        self.buffer.set_byte(6, value.into());
    }

    /// Set the hop limit field.
    pub fn set_hop_limit(&mut self, value: u8)
        requires
            old(self).data().len() >= 8,
        ensures
            final(self).data() == old(self).data().update(7, value),
    {
        self.buffer.set_byte(7, value);
    }

    /// Set the source address field.
    pub fn set_src_addr(&mut self, value: Address)
        requires
            old(self).data().len() >= 24,
        ensures
            final(self).data() == splice(old(self).data(), 8, value@),
    {
        self.buffer.copy_in(8, value.as_bytes());
    }

    /// Set the destination address field.
    pub fn set_dst_addr(&mut self, value: Address)
        requires
            old(self).data().len() >= 40,
        ensures
            final(self).data() == splice(old(self).data(), 24, value@),
    {
        self.buffer.copy_in(24, value.as_bytes());
    }
}

impl<T: BytesSliceMut> Packet<T> {
    /// Return a mutable pointer to the payload: the octets after the fixed
    /// header.
    pub fn payload_mut(&mut self) -> (r: &mut [u8])
        requires
            old(self).data().len() >= HEADER_LEN,
        ensures
            r@ == old(self).data().subrange(40, old(self).data().len() as int),
            final(self).data() == old(self).data().subrange(0, 40) + final(r)@,
    {
        let data = self.buffer.as_bytes_mut();
        let (_header, payload) = data.split_at_mut(HEADER_LEN);
        payload
    }
}

/// A high-level representation of an Internet Protocol version 6 packet
/// header.
#[derive(Debug, PartialEq, Eq, Clone, Copy)]
pub struct Repr {
    pub src_addr: Address,
    pub dst_addr: Address,
    pub next_header: IpProtocol,
    pub payload_len: usize,
    pub hop_limit: u8,
}

impl Repr {
    /// What parsing `s` gives.
    pub open spec fn parse_spec(s: Seq<u8>) -> Result<Repr> {
        if !len_ok(s) || s[0] / 16 != 6 {
            Err(Error)
        } else {
            Ok(
                Repr {
                    src_addr: Address::from_seq(s.subrange(8, 24)),
                    dst_addr: Address::from_seq(s.subrange(24, 40)),
                    next_header: IpProtocol::from_raw(s[6]),
                    payload_len: be16(s, 4) as usize,
                    hop_limit: s[7],
                },
            )
        }
    }

    /// The forty header octets this representation is emitted as.
    pub open spec fn header_spec(self) -> Seq<u8> {
        seq![
            0x60u8,
            0,
            0,
            0,
            ((self.payload_len as u16) / 256) as u8,
            ((self.payload_len as u16) % 256) as u8,
            self.next_header.raw(),
            self.hop_limit,
        ] + self.src_addr@ + self.dst_addr@
    }

    /// Parse an Internet Protocol version 6 packet and return a high-level
    /// representation.
    pub fn parse<T: Bytes>(packet: &Packet<T>) -> (r: Result<Repr>)
        ensures
            r == Repr::parse_spec(packet.data()),
    {
        match packet.check_len() {
            Ok(()) => {},
            Err(e) => return Err(e),
        }
        if packet.version() != 6 {
            return Err(Error);
        }
        Ok(
            Repr {
                src_addr: packet.src_addr(),
                dst_addr: packet.dst_addr(),
                next_header: packet.next_header(),
                payload_len: packet.payload_len() as usize,
                hop_limit: packet.hop_limit(),
            },
        )
    }

    /// Return the length of a header that will be emitted from this
    /// high-level representation.
    pub fn buffer_len(&self) -> (r: usize)
        ensures
            r == HEADER_LEN,
    {
        HEADER_LEN
    }

    /// Emit a high-level representation into an Internet Protocol version 6
    /// packet; the payload length field keeps the low sixteen bits of the
    /// payload length.
    pub fn emit<T: BytesMut>(&self, packet: &mut Packet<T>)
        requires
            old(packet).data().len() >= HEADER_LEN,
        ensures
            final(packet).data() == splice(old(packet).data(), 0, self.header_spec()),
    {
        let ghost s0 = packet.data();
        packet.set_version(6);
        packet.set_traffic_class(0);
        packet.set_flow_label(0);
        packet.set_payload_len(self.payload_len as u16);
        packet.set_hop_limit(self.hop_limit);
        packet.set_next_header(self.next_header);
        packet.set_src_addr(self.src_addr);
        packet.set_dst_addr(self.dst_addr);
        proof {
            Address::lemma_view(self.src_addr);
            Address::lemma_view(self.dst_addr);
        }
        assert(packet.data() =~= splice(s0, 0, self.header_spec()));
    }
}

/// Parsing the header that was emitted gives back the representation, when
/// the buffer holds the payload, the payload length fits its field, and the
/// next header is canonical.
pub proof fn lemma_emit_then_parse(r: Repr, s: Seq<u8>)
    requires
        s.len() >= HEADER_LEN + r.payload_len,
        r.payload_len < 65536,
        r.next_header.is_canonical(),
    ensures
        Repr::parse_spec(splice(s, 0, r.header_spec())) == Ok::<Repr, Error>(r),
{
    let t = splice(s, 0, r.header_spec());
    Address::lemma_view(r.src_addr);
    Address::lemma_view(r.dst_addr);
    assert(t.subrange(8, 24) =~= r.src_addr@);
    assert(t.subrange(24, 40) =~= r.dst_addr@);
    assert(be16(t, 4) == r.payload_len);
}

} // verus!
