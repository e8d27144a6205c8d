//! Ethernet II frames.

use vstd::prelude::*;
use crate::buf::{be16, put_be16, splice, Bytes, BytesMut, BytesSliceMut, Ref};
use crate::error::{Error, Result};

verus! {

broadcast use vstd::array::group_array_axioms;

/// Ethernet protocol type.
#[derive(Debug, Clone, Copy, PartialEq, Eq, PartialOrd, Ord, Hash, Structural)]
pub enum EtherType {
    /// Internet Protocol version 4.
    Ipv4,
    /// Address Resolution Protocol.
    Arp,
    /// Internet Protocol version 6.
    Ipv6,
    /// A value with no name of its own.
    Unknown(u16),
}

impl EtherType {
    /// The EtherType that a raw value denotes.
    pub open spec fn from_raw(v: u16) -> EtherType {
        if v == 0x0800 {
            EtherType::Ipv4
        } else if v == 0x0806 {
            EtherType::Arp
        } else if v == 0x86DD {
            EtherType::Ipv6
        } else {
            EtherType::Unknown(v)
        }
    }

    /// The raw value of a EtherType.
    pub open spec fn raw(self) -> u16 {
        match self {
            EtherType::Ipv4 => 0x0800,
            EtherType::Arp => 0x0806,
            EtherType::Ipv6 => 0x86DD,
            EtherType::Unknown(v) => v,
        }
    }

    /// The code table of the wire format, over every code `v`: each named
    /// value is written as the code assigned to it, that code and no other
    /// reads as it, and a code with no name reads as `Unknown` of itself.
    pub proof fn lemma_codes(v: u16)
        ensures
            EtherType::Ipv4.raw() == 0x0800,
            EtherType::Arp.raw() == 0x0806,
            EtherType::Ipv6.raw() == 0x86DD,
            (EtherType::from_raw(v) == EtherType::Ipv4) <==> v == 0x0800,
            (EtherType::from_raw(v) == EtherType::Arp) <==> v == 0x0806,
            (EtherType::from_raw(v) == EtherType::Ipv6) <==> v == 0x86DD,
            v != 0x0800 && v != 0x0806 && v != 0x86DD ==> EtherType::from_raw(v) == EtherType::Unknown(v),
    {
    }

    /// A value is canonical when it is what its own raw value denotes; only an
    /// `Unknown` that carries a named value is not.
    pub open spec fn is_canonical(self) -> bool {
        EtherType::from_raw(self.raw()) == self
    }

    /// Reading back the raw value of what a raw value denotes gives that value.
    pub proof fn lemma_raw_from_raw(v: u16)
        ensures
            EtherType::from_raw(v).raw() == v,
            EtherType::from_raw(v).is_canonical(),
    {
    }
}

impl From<u16> for EtherType {
    fn from(v: u16) -> (r: EtherType) {
        match v {
            0x0800 => EtherType::Ipv4,
            0x0806 => EtherType::Arp,
            0x86DD => EtherType::Ipv6,
            _ => EtherType::Unknown(v),
        }
    }
}

impl vstd::std_specs::convert::FromSpecImpl<u16> for EtherType {
    open spec fn obeys_from_spec() -> bool {
        true
    }

    open spec fn from_spec(v: u16) -> EtherType {
        EtherType::from_raw(v)
    }
}

impl From<EtherType> for u16 {
    fn from(v: EtherType) -> (r: u16) {
        match v {
            EtherType::Ipv4 => 0x0800,
            EtherType::Arp => 0x0806,
            EtherType::Ipv6 => 0x86DD,
            EtherType::Unknown(x) => x,
        }
    }
}

impl vstd::std_specs::convert::FromSpecImpl<EtherType> for u16 {
    open spec fn obeys_from_spec() -> bool {
        true
    }

    open spec fn from_spec(v: EtherType) -> u16 {
        v.raw()
    }
}


/// A six-octet Ethernet II address.
#[derive(Debug, Hash, PartialEq, Eq, PartialOrd, Ord, Clone, Copy, Default)]
pub struct Address {
    octets: [u8; 6],
}

impl View for Address {
    type V = Seq<u8>;

    closed spec fn view(&self) -> Seq<u8> {
        self.octets@
    }
}

impl Address {
    /// The broadcast address.
    pub fn broadcast() -> (r: Address)
        ensures
            r@ == seq![0xffu8, 0xff, 0xff, 0xff, 0xff, 0xff],
    {
        Address::new(0xff, 0xff, 0xff, 0xff, 0xff, 0xff)
    }

    /// The address whose octets are `s`, for a six-octet `s`.
    pub closed spec fn from_seq(s: Seq<u8>) -> Address {
        Address { octets: [s[0], s[1], s[2], s[3], s[4], s[5]] }
    }

    /// Every address has six octets, and is determined by them.
    pub broadcast proof fn lemma_view(a: Address)
        ensures
            #[trigger] a@.len() == 6,
            Address::from_seq(a@) == a,
    {
        assert(Address::from_seq(a@).octets =~= a.octets);
    }

    /// The address built from six octets has those octets.
    pub broadcast proof fn lemma_from_seq(s: Seq<u8>)
        requires
            s.len() == 6,
        ensures
            #[trigger] Address::from_seq(s)@ == s,
    {
        assert(Address::from_seq(s)@ =~= s);
    }

    /// Construct an Ethernet address from six octets, in big-endian.
    pub fn new(a0: u8, a1: u8, a2: u8, a3: u8, a4: u8, a5: u8) -> (r: Address)
        ensures
            r@ == seq![a0, a1, a2, a3, a4, a5],
    {
        let r = Address { octets: [a0, a1, a2, a3, a4, a5] };
        assert(r@ =~= seq![a0, a1, a2, a3, a4, a5]);
        r
    }

    /// Construct an Ethernet address from an array of octets, in big-endian.
    pub fn from_octets(octets: [u8; 6]) -> (r: Address)
        ensures
            r@ == octets@,
    {
        Address { octets }
    }

    /// Construct an Ethernet address from a sequence of six octets, in big-endian.
    pub fn from_bytes(data: &[u8]) -> (r: Address)
        requires
            data@.len() == 6,
        ensures
            r@ == data@,
            r == Address::from_seq(data@),
    {
        let r = Address { octets: [data[0], data[1], data[2], data[3], data[4], data[5]] };
        assert(r@ =~= data@);
        proof {
            Address::lemma_view(r);
        }
        r
    }

    /// Return an Ethernet address as an array of octets, in big-endian.
    pub fn octets(&self) -> (r: [u8; 6])
        ensures
            r@ == self@,
    {
        self.octets
    }

    /// Return an Ethernet address as a sequence of octets, in big-endian.
    pub fn as_bytes(&self) -> (r: &[u8])
        ensures
            r@ == self@,
    {
        self.octets.as_slice()
    }

    /// Query whether the address is an unicast address.
    pub fn is_unicast(&self) -> (r: bool)
        ensures
            r == (self@[0] % 2 == 0),
    {
        !(self.is_broadcast() || self.is_multicast())
    }

    /// Query whether this address is the broadcast address.
    pub fn is_broadcast(&self) -> (r: bool)
        ensures
            r == (self@ == seq![0xffu8, 0xff, 0xff, 0xff, 0xff, 0xff]),
    {
        let o = &self.octets;
        let r = o[0] == 0xff && o[1] == 0xff && o[2] == 0xff && o[3] == 0xff && o[4] == 0xff
            && o[5] == 0xff;
        assert(r ==> self@ =~= seq![0xffu8, 0xff, 0xff, 0xff, 0xff, 0xff]);
        assert(self@ == seq![0xffu8, 0xff, 0xff, 0xff, 0xff, 0xff] ==> self@[5] == 0xff);
        r
    }

    /// Query whether the "multicast" bit in the OUI is set.
    pub fn is_multicast(&self) -> (r: bool)
        ensures
            r == (self@[0] % 2 == 1),
    {
        self.octets[0] % 2 == 1
    }

    /// Query whether the "locally administered" bit in the OUI is set.
    pub fn is_local(&self) -> (r: bool)
        ensures
            r == ((self@[0] / 2) % 2 == 1),
    {
        (self.octets[0] / 2) % 2 == 1
    }

    /// Convert the address to an Extended Unique Identifier (EUI-64): the OUI
    /// with its universal/local bit complemented, `ff fe`, then the rest.
    pub fn as_eui_64(&self) -> (r: Option<[u8; 8]>)
        ensures
            r matches Some(e) && e@ == seq![
                self@[0] ^ 0x02u8,
                self@[1],
                self@[2],
                0xffu8,
                0xfeu8,
                self@[3],
                self@[4],
                self@[5],
            ],
    {
        let o = self.octets;
        let e = [o[0] ^ 0x02, o[1], o[2], 0xff, 0xfe, o[3], o[4], o[5]];
        assert(e@ =~= seq![
            self@[0] ^ 0x02u8,
            self@[1],
            self@[2],
            0xffu8,
            0xfeu8,
            self@[3],
            self@[4],
            self@[5],
        ]);
        Some(e)
    }
}

/// The Ethernet header length.
pub const HEADER_LEN: usize = 14;

/// A read/write wrapper around an Ethernet II frame buffer.
#[derive(Debug, Clone)]
pub struct Frame<T> {
    buffer: T,
}

impl<T> Frame<T> {
    /// The buffer underneath.
    pub closed spec fn inner(&self) -> T {
        self.buffer
    }

    /// Imbue a raw octet buffer with Ethernet frame structure.
    pub fn new_unchecked(buffer: T) -> (r: Frame<T>)
        ensures
            r.inner() == buffer,
    {
        Frame { buffer }
    }

    /// Consumes the frame, returning the underlying buffer.
    pub fn into_inner(self) -> (r: T)
        ensures
            r == self.inner(),
    {
        self.buffer
    }

    /// Return the length of a frame header.
    pub fn header_len() -> (r: usize)
        ensures
            r == HEADER_LEN,
    {
        HEADER_LEN
    }

    /// Return the length of a buffer required to hold a packet with the payload
    /// of a given length.
    pub fn buffer_len(payload_len: usize) -> (r: usize)
        requires
            payload_len <= usize::MAX - HEADER_LEN,
        ensures
            r == HEADER_LEN + payload_len,
    {
        HEADER_LEN + payload_len
    }
}

impl<T: Bytes> AsRef<[u8]> for Frame<T> {
    /// The octets of the frame.
    fn as_ref(&self) -> (r: &[u8])
        ensures
            r@ == self.data(),
    {
        self.buffer.as_bytes()
    }
}

impl<T: Bytes> Frame<T> {
    /// The octets of the frame.
    pub open spec fn data(&self) -> Seq<u8> {
        self.inner().bytes()
    }

    /// Shorthand for a combination of [`Frame::new_unchecked`] and [`Frame::check_len`].
    pub fn new_checked(buffer: T) -> (r: Result<Frame<T>>)
        ensures
            r is Ok <==> buffer.bytes().len() >= HEADER_LEN,
            r matches Ok(f) ==> f.inner() == buffer,
    {
        let frame = Self::new_unchecked(buffer);
        match frame.check_len() {
            Ok(()) => Ok(frame),
            Err(e) => Err(e),
        }
    }

    /// Ensure that no accessor method will panic if called.
    /// Returns `Err(Error)` if the buffer is too short.
    pub fn check_len(&self) -> (r: Result<()>)
        ensures
            r is Ok <==> self.data().len() >= HEADER_LEN,
    {
        if self.buffer.byte_len() < HEADER_LEN {
            Err(Error)
        } else {
            Ok(())
        }
    }

    /// Return the destination address field.
    pub fn dst_addr(&self) -> (r: Address)
        requires
            self.data().len() >= 6,
        ensures
            r@ == self.data().subrange(0, 6),
            r == Address::from_seq(self.data().subrange(0, 6)),
    {
        let data = self.buffer.as_bytes();
        Address::from_bytes(&data[0..6])
    }

    /// Return the source address field.
    pub fn src_addr(&self) -> (r: Address)
        requires
            self.data().len() >= 12,
        ensures
            r@ == self.data().subrange(6, 12),
            r == Address::from_seq(self.data().subrange(6, 12)),
    {
        let data = self.buffer.as_bytes();
        Address::from_bytes(&data[6..12])
    }

    /// Return the EtherType field, without checking for 802.1Q.
    pub fn ethertype(&self) -> (r: EtherType)
        requires
            self.data().len() >= HEADER_LEN,
        ensures
            r == EtherType::from_raw(be16(self.data(), 12)),
    {
        let data = self.buffer.as_bytes();
        EtherType::from(crate::buf::read_u16_at(data, 12))
    }

    /// Return the payload, without checking for 802.1Q.
    pub fn payload(&self) -> (r: &[u8])
        requires
            self.data().len() >= HEADER_LEN,
        ensures
            r@ == self.data().subrange(HEADER_LEN as int, self.data().len() as int),
    {
        let data = self.buffer.as_bytes();
        &data[HEADER_LEN..data.len()]
    }
}

impl<'a> Frame<Ref<'a>> {
    /// [`Frame::new_checked`] over a [`Ref`].
    pub fn new_checked_ref(buffer: Ref<'a>) -> (r: Result<Frame<Ref<'a>>>)
        ensures
            r is Ok <==> buffer.view_bytes().len() >= HEADER_LEN,
            r matches Ok(f) ==> f.inner() == buffer,
    {
        Self::new_checked(buffer)
    }
}

impl<T: BytesMut> Frame<T> {
    /// Set the destination address field.
    pub fn set_dst_addr(&mut self, value: Address)
        requires
            old(self).data().len() >= 6,
        ensures
            final(self).data() == splice(old(self).data(), 0, value@),
    {
        self.buffer.copy_in(0, value.as_bytes());
    }

    /// Set the source address field.
    pub fn set_src_addr(&mut self, value: Address)
        requires
            old(self).data().len() >= 12,
        ensures
            final(self).data() == splice(old(self).data(), 6, value@),
    {
        self.buffer.copy_in(6, value.as_bytes());
    }

    /// Set the EtherType field.
    pub fn set_ethertype(&mut self, value: EtherType)
        requires
            old(self).data().len() >= HEADER_LEN,
        ensures
            final(self).data() == put_be16(old(self).data(), 12, value.raw()),
    {
        self.buffer.set_u16(12, value.into());
    }
}

impl<T: BytesSliceMut> Frame<T> {
    /// Return a mutable pointer to the payload.
    pub fn payload_mut(&mut self) -> (r: &mut [u8])
        requires
            old(self).data().len() >= HEADER_LEN,
        ensures
            r@ == old(self).data().subrange(HEADER_LEN as int, old(self).data().len() as int),
            final(self).data() == old(self).data().subrange(0, HEADER_LEN as int) + final(r)@,
    {
        let data = self.buffer.as_bytes_mut();
        let (_header, payload) = data.split_at_mut(HEADER_LEN);
        payload
    }
}

/// A high-level representation of an Ethernet II frame header.
#[derive(Debug, PartialEq, Eq, Clone, Copy)]
pub struct Repr {
    pub src_addr: Address,
    pub dst_addr: Address,
    pub ethertype: EtherType,
}

impl Repr {
    /// The header that the first fourteen octets of `s` describe.
    pub open spec fn parse_spec(s: Seq<u8>) -> Repr {
        Repr {
            src_addr: Address::from_seq(s.subrange(6, 12)),
            dst_addr: Address::from_seq(s.subrange(0, 6)),
            ethertype: EtherType::from_raw(be16(s, 12)),
        }
    }

    /// `s` with this header written over its first fourteen octets.
    pub open spec fn emit_spec(self, s: Seq<u8>) -> Seq<u8> {
        put_be16(splice(splice(s, 6, self.src_addr@), 0, self.dst_addr@), 12, self.ethertype.raw())
    }

    /// Parse an Ethernet II frame and return a high-level representation.
    pub fn parse<T: Bytes>(frame: &Frame<T>) -> (r: Result<Repr>)
        ensures
            r == (if frame.data().len() >= HEADER_LEN {
                Ok(Repr::parse_spec(frame.data()))
            } else {
                Err(Error)
            }),
    {
        match frame.check_len() {
            Ok(()) => Ok(
                Repr {
                    src_addr: frame.src_addr(),
                    dst_addr: frame.dst_addr(),
                    ethertype: frame.ethertype(),
                },
            ),
            Err(e) => Err(e),
        }
    }

    /// Return the length of a header that will be emitted from this high-level representation.
    pub fn buffer_len(&self) -> (r: usize)
        ensures
            r == HEADER_LEN,
    {
        HEADER_LEN
    }

    /// Emit a high-level representation into an Ethernet II frame.
    pub fn emit<T: BytesMut>(&self, frame: &mut Frame<T>)
        requires
            old(frame).data().len() >= HEADER_LEN,
        ensures
            final(frame).data() == self.emit_spec(old(frame).data()),
    {
        frame.set_src_addr(self.src_addr);
        frame.set_dst_addr(self.dst_addr);
        frame.set_ethertype(self.ethertype);
    }
}

/// Parsing the header that was emitted gives back the representation, when its
/// EtherType is canonical.
pub proof fn lemma_emit_then_parse(r: Repr, s: Seq<u8>)
    requires
        s.len() >= HEADER_LEN,
        r.ethertype.is_canonical(),
    ensures
        Repr::parse_spec(r.emit_spec(s)) == r,
        r.emit_spec(s).len() == s.len(),
{
    let t = r.emit_spec(s);
    let t1 = splice(s, 6, r.src_addr@);
    let t2 = splice(t1, 0, r.dst_addr@);
    assert(t.subrange(6, 12) =~= r.src_addr@);
    assert(t.subrange(0, 6) =~= r.dst_addr@);
    assert(be16(t, 12) == r.ethertype.raw()) by {
        crate::buf::lemma_be16_put(t2, 12, r.ethertype.raw());
    }
    Address::lemma_view(r.src_addr);
    Address::lemma_view(r.dst_addr);
}

/// Emitting the header that was parsed leaves the frame as it was.
pub proof fn lemma_parse_then_emit(s: Seq<u8>)
    requires
        s.len() >= HEADER_LEN,
    ensures
        Repr::parse_spec(s).emit_spec(s) == s,
{
    let r = Repr::parse_spec(s);
    Address::lemma_from_seq(s.subrange(6, 12));
    Address::lemma_from_seq(s.subrange(0, 6));
    EtherType::lemma_raw_from_raw(be16(s, 12));
    assert(r.emit_spec(s) =~= s);
}

} // verus!
