//! Address Resolution Protocol packets.

use vstd::prelude::*;
use crate::buf::{be16, put_be16, splice, Bytes, BytesMut, Ref, read_u16_at};
use crate::error::{Error, Result};
use crate::ethernet::Address as EthernetAddress;
use crate::ipv4::Address as Ipv4Address;
pub use crate::ethernet::EtherType as Protocol;

verus! {

broadcast use vstd::array::group_array_axioms;

/// ARP hardware type.
#[derive(Debug, Clone, Copy, PartialEq, Eq, PartialOrd, Ord, Hash, Structural)]
pub enum Hardware {
    /// Ethernet.
    Ethernet,
    /// A value with no name of its own.
    Unknown(u16),
}

impl Hardware {
    /// The Hardware that a raw value denotes.
    pub open spec fn from_raw(v: u16) -> Hardware {
        if v == 1 {
            Hardware::Ethernet
        } else {
            Hardware::Unknown(v)
        }
    }

    /// The raw value of a Hardware.
    pub open spec fn raw(self) -> u16 {
        match self {
            Hardware::Ethernet => 1,
            Hardware::Unknown(v) => v,
        }
    }

    /// The code table of the wire format, over every code `v`: each named
    /// value is written as the code assigned to it, that code and no other
    /// reads as it, and a code with no name reads as `Unknown` of itself.
    pub proof fn lemma_codes(v: u16)
        ensures
            Hardware::Ethernet.raw() == 1,
            (Hardware::from_raw(v) == Hardware::Ethernet) <==> v == 1,
            v != 1 ==> Hardware::from_raw(v) == Hardware::Unknown(v),
    {
    }

    /// A value is canonical when it is what its own raw value denotes; only an
    /// `Unknown` that carries a named value is not.
    pub open spec fn is_canonical(self) -> bool {
        Hardware::from_raw(self.raw()) == self
    }

    /// Reading back the raw value of what a raw value denotes gives that value.
    pub proof fn lemma_raw_from_raw(v: u16)
        ensures
            Hardware::from_raw(v).raw() == v,
            Hardware::from_raw(v).is_canonical(),
    {
    }
}

impl From<u16> for Hardware {
    fn from(v: u16) -> (r: Hardware) {
        match v {
            1 => Hardware::Ethernet,
            _ => Hardware::Unknown(v),
        }
    }
}

impl vstd::std_specs::convert::FromSpecImpl<u16> for Hardware {
    open spec fn obeys_from_spec() -> bool {
        true
    }

    open spec fn from_spec(v: u16) -> Hardware {
        Hardware::from_raw(v)
    }
}

impl From<Hardware> for u16 {
    fn from(v: Hardware) -> (r: u16) {
        match v {
            Hardware::Ethernet => 1,
            Hardware::Unknown(x) => x,
        }
    }
}

impl vstd::std_specs::convert::FromSpecImpl<Hardware> for u16 {
    open spec fn obeys_from_spec() -> bool {
        true
    }

    open spec fn from_spec(v: Hardware) -> u16 {
        v.raw()
    }
}

/// ARP operation type.
#[derive(Debug, Clone, Copy, PartialEq, Eq, PartialOrd, Ord, Hash, Structural)]
pub enum Operation {
    /// A request.
    Request,
    /// A reply.
    Reply,
    /// A value with no name of its own.
    Unknown(u16),
}

impl Operation {
    /// The Operation that a raw value denotes.
    pub open spec fn from_raw(v: u16) -> Operation {
        if v == 1 {
            Operation::Request
        } else if v == 2 {
            Operation::Reply
        } else {
            Operation::Unknown(v)
        }
    }

    /// The raw value of a Operation.
    pub open spec fn raw(self) -> u16 {
        match self {
            Operation::Request => 1,
            Operation::Reply => 2,
            Operation::Unknown(v) => v,
        }
    }

    /// The code table of the wire format, over every code `v`: each named
    /// value is written as the code assigned to it, that code and no other
    /// reads as it, and a code with no name reads as `Unknown` of itself.
    pub proof fn lemma_codes(v: u16)
        ensures
            Operation::Request.raw() == 1,
            Operation::Reply.raw() == 2,
            (Operation::from_raw(v) == Operation::Request) <==> v == 1,
            (Operation::from_raw(v) == Operation::Reply) <==> v == 2,
            v != 1 && v != 2 ==> Operation::from_raw(v) == Operation::Unknown(v),
    {
    }

    /// A value is canonical when it is what its own raw value denotes; only an
    /// `Unknown` that carries a named value is not.
    pub open spec fn is_canonical(self) -> bool {
        Operation::from_raw(self.raw()) == self
    }

    /// Reading back the raw value of what a raw value denotes gives that value.
    pub proof fn lemma_raw_from_raw(v: u16)
        ensures
            Operation::from_raw(v).raw() == v,
            Operation::from_raw(v).is_canonical(),
    {
    }
}

impl From<u16> for Operation {
    fn from(v: u16) -> (r: Operation) {
        match v {
            1 => Operation::Request,
            2 => Operation::Reply,
            _ => Operation::Unknown(v),
        }
    }
}

impl vstd::std_specs::convert::FromSpecImpl<u16> for Operation {
    open spec fn obeys_from_spec() -> bool {
        true
    }

    open spec fn from_spec(v: u16) -> Operation {
        Operation::from_raw(v)
    }
}

impl From<Operation> for u16 {
    fn from(v: Operation) -> (r: u16) {
        match v {
            Operation::Request => 1,
            Operation::Reply => 2,
            Operation::Unknown(x) => x,
        }
    }
}

impl vstd::std_specs::convert::FromSpecImpl<Operation> for u16 {
    open spec fn obeys_from_spec() -> bool {
        true
    }

    open spec fn from_spec(v: Operation) -> u16 {
        v.raw()
    }
}

/// The octets of the source hardware address, for the given lengths.
#[allow(non_snake_case)]
pub fn SHA(hardware_len: u8, _protocol_len: u8) -> (r: core::ops::Range<usize>)
    ensures
        r.start == 8,
        r.end == 8 + hardware_len,
{
    let start: usize = 8;
    start..(start + hardware_len as usize)
}

/// The octets of the source protocol address, for the given lengths.
#[allow(non_snake_case)]
pub fn SPA(hardware_len: u8, protocol_len: u8) -> (r: core::ops::Range<usize>)
    ensures
        r.start == 8 + hardware_len,
        r.end == 8 + hardware_len + protocol_len,
{
    let start = SHA(hardware_len, protocol_len).end;
    start..(start + protocol_len as usize)
}

/// The octets of the target hardware address, for the given lengths.
#[allow(non_snake_case)]
pub fn THA(hardware_len: u8, protocol_len: u8) -> (r: core::ops::Range<usize>)
    ensures
        r.start == 8 + hardware_len + protocol_len,
        r.end == 8 + 2 * hardware_len + protocol_len,
{
    let start = SPA(hardware_len, protocol_len).end;
    start..(start + hardware_len as usize)
}

/// The octets of the target protocol address, for the given lengths.
#[allow(non_snake_case)]
pub fn TPA(hardware_len: u8, protocol_len: u8) -> (r: core::ops::Range<usize>)
    ensures
        r.start == 8 + 2 * hardware_len + protocol_len,
        r.end == 8 + 2 * hardware_len + 2 * protocol_len,
{
    let start = THA(hardware_len, protocol_len).end;
    start..(start + protocol_len as usize)
}

/// The hardware address length field.
pub open spec fn hlen_of(s: Seq<u8>) -> int {
    s[4] as int
}

/// The protocol address length field.
pub open spec fn plen_of(s: Seq<u8>) -> int {
    s[5] as int
}

/// The buffer holds the fixed part and both address pairs.
pub open spec fn len_ok(s: Seq<u8>) -> bool {
    s.len() >= 8 && s.len() >= 8 + 2 * hlen_of(s) + 2 * plen_of(s)
}

/// A read/write wrapper around an Address Resolution Protocol packet buffer.
#[derive(Debug, PartialEq, Eq, Clone)]
pub struct Packet<T> {
    buffer: T,
}

impl<T> Packet<T> {
    /// The buffer underneath.
    pub closed spec fn inner(&self) -> T {
        self.buffer
    }

    /// Imbue a raw octet buffer with ARP packet structure.
    pub fn new_unchecked(buffer: T) -> (r: Packet<T>)
        ensures
            r.inner() == buffer,
    {
        Packet { buffer }
    }

    /// Consumes the packet, returning the underlying buffer.
    pub fn into_inner(self) -> (r: T)
        ensures
            r == self.inner(),
    {
        self.buffer
    }
}

impl<T: Bytes> AsRef<[u8]> for Packet<T> {
    /// The octets of the packet.
    fn as_ref(&self) -> (r: &[u8])
        ensures
            r@ == self.data(),
    {
        self.buffer.as_bytes()
    }
}

impl<T: Bytes> Packet<T> {
    /// The octets of the packet.
    pub open spec fn data(&self) -> Seq<u8> {
        self.inner().bytes()
    }

    /// Shorthand for a combination of [`Packet::new_unchecked`] and [`Packet::check_len`].
    pub fn new_checked(buffer: T) -> (r: Result<Packet<T>>)
        ensures
            r is Ok <==> len_ok(buffer.bytes()),
            r matches Ok(p) ==> p.inner() == buffer,
    {
        let packet = Self::new_unchecked(buffer);
        match packet.check_len() {
            Ok(()) => Ok(packet),
            Err(e) => Err(e),
        }
    }

    /// Ensure that no accessor method will panic if called.
    /// Returns `Err(Error)` if the buffer is too short to hold the fixed
    /// fields and the four addresses whose lengths it declares.
    pub fn check_len(&self) -> (r: Result<()>)
        ensures
            r is Ok <==> len_ok(self.data()),
    {
        match self.checked_len() {
            Ok(_) => Ok(()),
            Err(e) => Err(e),
        }
    }

    /// The buffer's length, when it passes [`Packet::check_len`].
    fn checked_len(&self) -> (r: Result<usize>)
        ensures
            r is Ok <==> len_ok(self.data()),
            r matches Ok(n) ==> n == self.data().len(),
    {
        let len = self.buffer.byte_len();
        if len < 8 {
            Err(Error)
        } else {
            let hardware_len = self.hardware_len() as usize;
            let protocol_len = self.protocol_len() as usize;
            if len < 8 + 2 * hardware_len + 2 * protocol_len {
                Err(Error)
            } else {
                Ok(len)
            }
        }
    }

    /// Return the hardware type field.
    pub fn hardware_type(&self) -> (r: Hardware)
        requires
            self.data().len() >= 2,
        ensures
            r == Hardware::from_raw(be16(self.data(), 0)),
    {
        Hardware::from(read_u16_at(self.buffer.as_bytes(), 0))
    }

    /// Return the protocol type field.
    pub fn protocol_type(&self) -> (r: Protocol)
        requires
            self.data().len() >= 4,
        ensures
            r == Protocol::from_raw(be16(self.data(), 2)),
    {
        Protocol::from(read_u16_at(self.buffer.as_bytes(), 2))
    }

    /// Return the hardware length field.
    pub fn hardware_len(&self) -> (r: u8)
        requires
            self.data().len() >= 5,
        ensures
            r == self.data()[4],
    {
        self.buffer.as_bytes()[4]
    }

    /// Return the protocol length field.
    pub fn protocol_len(&self) -> (r: u8)
        requires
            self.data().len() >= 6,
        ensures
            r == self.data()[5],
    {
        self.buffer.as_bytes()[5]
    }

    /// Return the operation field.
    pub fn operation(&self) -> (r: Operation)
        requires
            self.data().len() >= 8,
        ensures
            r == Operation::from_raw(be16(self.data(), 6)),
    {
        Operation::from(read_u16_at(self.buffer.as_bytes(), 6))
    }

    /// Return the source hardware address field.
    pub fn source_hardware_addr(&self) -> (r: &[u8])
        requires
            self.data().len() >= 6,
            8 + hlen_of(self.data()) <= self.data().len(),
        ensures
            r@ == self.data().subrange(8, 8 + hlen_of(self.data())),
    {
        let hardware_len = self.hardware_len() as usize;
        crate::buf::sub(self.buffer.as_bytes(), 8, hardware_len)
    }

    /// Return the source protocol address field.
    pub fn source_protocol_addr(&self) -> (r: &[u8])
        requires
            self.data().len() >= 6,
            8 + hlen_of(self.data()) + plen_of(self.data()) <= self.data().len(),
        ensures
            r@ == self.data().subrange(
                8 + hlen_of(self.data()),
                8 + hlen_of(self.data()) + plen_of(self.data()),
            ),
    {
        let hardware_len = self.hardware_len() as usize;
        let protocol_len = self.protocol_len() as usize;
        crate::buf::sub(self.buffer.as_bytes(), 8 + hardware_len, protocol_len)
    }

    /// Return the target hardware address field.
    pub fn target_hardware_addr(&self) -> (r: &[u8])
        requires
            self.data().len() >= 6,
            8 + 2 * hlen_of(self.data()) + plen_of(self.data()) <= self.data().len(),
        ensures
            r@ == self.data().subrange(
                8 + hlen_of(self.data()) + plen_of(self.data()),
                8 + 2 * hlen_of(self.data()) + plen_of(self.data()),
            ),
    {
        let hardware_len = self.hardware_len() as usize;
        let protocol_len = self.protocol_len() as usize;
        crate::buf::sub(self.buffer.as_bytes(), 8 + hardware_len + protocol_len, hardware_len)
    }

    /// Return the target protocol address field.
    pub fn target_protocol_addr(&self) -> (r: &[u8])
        requires
            self.data().len() >= 6,
            8 + 2 * hlen_of(self.data()) + 2 * plen_of(self.data()) <= self.data().len(),
        ensures
            r@ == self.data().subrange(
                8 + 2 * hlen_of(self.data()) + plen_of(self.data()),
                8 + 2 * hlen_of(self.data()) + 2 * plen_of(self.data()),
            ),
    {
        let hardware_len = self.hardware_len() as usize;
        let protocol_len = self.protocol_len() as usize;
        crate::buf::sub(self.buffer.as_bytes(), 8 + 2 * hardware_len + protocol_len, protocol_len)
    }
}

impl<'a> Packet<Ref<'a>> {
    /// Check the length of a packet over a [`Ref`], and hand back a packet that
    /// is known to be long enough for every accessor.
    pub fn new_checked_display(buffer: Ref<'a>) -> (r: Result<CheckedPacket<'a>>)
        ensures
            r is Ok <==> len_ok(buffer.view_bytes()),
            r matches Ok(c) ==> c.packet().inner() == buffer,
    {
        let packet = Packet::new_unchecked(buffer);
        match packet.checked_len() {
            Ok(_) => Ok(CheckedPacket(packet)),
            Err(e) => Err(e),
        }
    }
}

impl<T: BytesMut> Packet<T> {
    /// Set the hardware type field.
    pub fn set_hardware_type(&mut self, value: Hardware)
        requires
            old(self).data().len() >= 2,
        ensures
            final(self).data() == put_be16(old(self).data(), 0, value.raw()),
    {
        self.buffer.set_u16(0, value.into());
    }

    /// Set the protocol type field.
    pub fn set_protocol_type(&mut self, value: Protocol)
        requires
            old(self).data().len() >= 4,
        ensures
            final(self).data() == put_be16(old(self).data(), 2, value.raw()),
    {
        self.buffer.set_u16(2, value.into());
    }

    /// Set the hardware length field.
    pub fn set_hardware_len(&mut self, value: u8)
        requires
            old(self).data().len() >= 5,
        ensures
            final(self).data() == old(self).data().update(4, value),
    {
        self.buffer.set_byte(4, value);
    }

    /// Set the protocol length field.
    pub fn set_protocol_len(&mut self, value: u8)
        requires
            old(self).data().len() >= 6,
        ensures
            final(self).data() == old(self).data().update(5, value),
    {
        self.buffer.set_byte(5, value);
    }

    /// Set the operation field.
    pub fn set_operation(&mut self, value: Operation)
        requires
            old(self).data().len() >= 8,
        ensures
            final(self).data() == put_be16(old(self).data(), 6, value.raw()),
    {
        self.buffer.set_u16(6, value.into());
    }

    /// Set the source hardware address field; `value` has the declared length.
    pub fn set_source_hardware_addr(&mut self, value: &[u8])
        requires
            old(self).data().len() >= 6,
            value@.len() == hlen_of(old(self).data()),
            8 + hlen_of(old(self).data()) <= old(self).data().len(),
        ensures
            final(self).data() == splice(old(self).data(), 8, value@),
    {
        self.buffer.copy_in(8, value);
    }

    /// Set the source protocol address field; `value` has the declared length.
    pub fn set_source_protocol_addr(&mut self, value: &[u8])
        requires
            old(self).data().len() >= 6,
            value@.len() == plen_of(old(self).data()),
            8 + hlen_of(old(self).data()) + plen_of(old(self).data()) <= old(self).data().len(),
        ensures
            final(self).data() == splice(
                old(self).data(),
                8 + hlen_of(old(self).data()),
                value@,
            ),
    {
        let hardware_len = self.hardware_len() as usize;
        self.buffer.copy_in(8 + hardware_len, value);
    }

    /// Set the target hardware address field; `value` has the declared length.
    pub fn set_target_hardware_addr(&mut self, value: &[u8])
        requires
            old(self).data().len() >= 6,
            value@.len() == hlen_of(old(self).data()),
            8 + 2 * hlen_of(old(self).data()) + plen_of(old(self).data()) <= old(
                self,
            ).data().len(),
        ensures
            final(self).data() == splice(
                old(self).data(),
                8 + hlen_of(old(self).data()) + plen_of(old(self).data()),
                value@,
            ),
    {
        let hardware_len = self.hardware_len() as usize;
        let protocol_len = self.protocol_len() as usize;
        self.buffer.copy_in(8 + hardware_len + protocol_len, value);
    }

    /// Set the target protocol address field; `value` has the declared length.
    pub fn set_target_protocol_addr(&mut self, value: &[u8])
        requires
            old(self).data().len() >= 6,
            value@.len() == plen_of(old(self).data()),
            8 + 2 * hlen_of(old(self).data()) + 2 * plen_of(old(self).data()) <= old(
                self,
            ).data().len(),
        ensures
            final(self).data() == splice(
                old(self).data(),
                8 + 2 * hlen_of(old(self).data()) + plen_of(old(self).data()),
                value@,
            ),
    {
        let hardware_len = self.hardware_len() as usize;
        let protocol_len = self.protocol_len() as usize;
        self.buffer.copy_in(8 + 2 * hardware_len + protocol_len, value);
    }
}

/// A packet over a [`Ref`] whose length has been checked.
pub struct CheckedPacket<'a>(Packet<Ref<'a>>);

impl<'a> CheckedPacket<'a> {
    /// The packet is long enough for every accessor.
    #[verifier::type_invariant]
    spec fn wf(self) -> bool {
        len_ok(self.0.data())
    }

    /// The packet inside.
    pub closed spec fn packet(self) -> Packet<Ref<'a>> {
        self.0
    }

    /// Borrow the checked packet.
    pub fn as_packet(&self) -> (r: &Packet<Ref<'a>>)
        ensures
            *r == self.packet(),
            len_ok(r.data()),
    {
        proof {
            use_type_invariant(self);
        }
        &self.0
    }
}

/// A high-level representation of an Address Resolution Protocol packet.
#[derive(Debug, PartialEq, Eq, Clone, Copy)]
#[non_exhaustive]
pub enum Repr {
    /// An Ethernet and IPv4 Address Resolution Protocol packet.
    EthernetIpv4 {
        operation: Operation,
        source_hardware_addr: EthernetAddress,
        source_protocol_addr: Ipv4Address,
        target_hardware_addr: EthernetAddress,
        target_protocol_addr: Ipv4Address,
    },
}

/// The length of an Ethernet and IPv4 packet.
pub const ETHERNET_IPV4_LEN: usize = 28;

impl Repr {
    /// What parsing `s` gives.
    pub open spec fn parse_spec(s: Seq<u8>) -> Result<Repr> {
        if !len_ok(s) {
            Err(Error)
        } else if be16(s, 0) == 1 && be16(s, 2) == 0x0800 && s[4] == 6 && s[5] == 4 {
            Ok(
                Repr::EthernetIpv4 {
                    operation: Operation::from_raw(be16(s, 6)),
                    source_hardware_addr: EthernetAddress::from_seq(s.subrange(8, 14)),
                    source_protocol_addr: Ipv4Address::from_seq(s.subrange(14, 18)),
                    target_hardware_addr: EthernetAddress::from_seq(s.subrange(18, 24)),
                    target_protocol_addr: Ipv4Address::from_seq(s.subrange(24, 28)),
                },
            )
        } else {
            Err(Error)
        }
    }

    /// The twenty-eight octets this representation is emitted as.
    pub open spec fn octets_spec(self) -> Seq<u8> {
        match self {
            Repr::EthernetIpv4 {
                operation,
                source_hardware_addr,
                source_protocol_addr,
                target_hardware_addr,
                target_protocol_addr,
            } => seq![
                0u8,
                1,
                8,
                0,
                6,
                4,
                (operation.raw() / 256) as u8,
                (operation.raw() % 256) as u8,
            ] + source_hardware_addr@ + source_protocol_addr@ + target_hardware_addr@
                + target_protocol_addr@,
        }
    }

    /// `s` with this representation emitted over its first octets.
    pub open spec fn emit_spec(self, s: Seq<u8>) -> Seq<u8> {
        splice(s, 0, self.octets_spec())
    }

    /// Parse an Address Resolution Protocol packet and return a high-level
    /// representation, or return `Err(Error)` if the packet is not recognized.
    pub fn parse<T: Bytes>(packet: &Packet<T>) -> (r: Result<Repr>)
        ensures
            r == Repr::parse_spec(packet.data()),
    {
        match packet.checked_len() {
            Ok(_) => {},
            Err(e) => return Err(e),
        }
        let hardware_type = packet.hardware_type();
        let protocol_type = packet.protocol_type();
        let hardware_len = packet.hardware_len();
        let protocol_len = packet.protocol_len();
        match (hardware_type, protocol_type, hardware_len, protocol_len) {
            (Hardware::Ethernet, Protocol::Ipv4, 6, 4) => {
                let sha = packet.source_hardware_addr();
                let spa = packet.source_protocol_addr();
                let tha = packet.target_hardware_addr();
                let tpa = packet.target_protocol_addr();
                Ok(
                    Repr::EthernetIpv4 {
                        operation: packet.operation(),
                        source_hardware_addr: EthernetAddress::from_bytes(sha),
                        source_protocol_addr: Ipv4Address::from_bytes(spa),
                        target_hardware_addr: EthernetAddress::from_bytes(tha),
                        target_protocol_addr: Ipv4Address::from_bytes(tpa),
                    },
                )
            },
            _ => Err(Error),
        }
    }

    /// Return the length of a packet that will be emitted from this high-level
    /// representation.
    pub fn buffer_len(&self) -> (r: usize)
        ensures
            r == ETHERNET_IPV4_LEN,
    {
        match *self {
            Repr::EthernetIpv4 { .. } => ETHERNET_IPV4_LEN,
        }
    }

    /// Emit a high-level representation into an Address Resolution Protocol
    /// packet.
    pub fn emit<T: BytesMut>(&self, packet: &mut Packet<T>)
        requires
            old(packet).data().len() >= ETHERNET_IPV4_LEN,
        ensures
            final(packet).data() == self.emit_spec(old(packet).data()),
    {
        let ghost s0 = packet.data();
        match *self {
            Repr::EthernetIpv4 {
                operation,
                source_hardware_addr,
                source_protocol_addr,
                target_hardware_addr,
                target_protocol_addr,
            } => {
                packet.set_hardware_type(Hardware::Ethernet);
                packet.set_protocol_type(Protocol::Ipv4);
                packet.set_hardware_len(6);
                packet.set_protocol_len(4);
                packet.set_operation(operation);
                proof {
                    EthernetAddress::lemma_view(source_hardware_addr);
                    EthernetAddress::lemma_view(target_hardware_addr);
                    Ipv4Address::lemma_view(source_protocol_addr);
                    Ipv4Address::lemma_view(target_protocol_addr);
                }
                packet.set_source_hardware_addr(source_hardware_addr.as_bytes());
                let spa = source_protocol_addr.octets();
                packet.set_source_protocol_addr(spa.as_slice());
                packet.set_target_hardware_addr(target_hardware_addr.as_bytes());
                let tpa = target_protocol_addr.octets();
                packet.set_target_protocol_addr(tpa.as_slice());
                proof {
                    assert(packet.data() =~= self.emit_spec(s0));
                }
            },
        }
    }
}

/// Parsing the packet that was emitted gives back the representation, when
/// its operation is canonical.
pub proof fn lemma_emit_then_parse(r: Repr, s: Seq<u8>)
    requires
        s.len() >= ETHERNET_IPV4_LEN,
        r matches Repr::EthernetIpv4 { operation, .. } && operation.is_canonical(),
    ensures
        Repr::parse_spec(r.emit_spec(s)) == Ok::<Repr, Error>(r),
        r.emit_spec(s).len() == s.len(),
{
    match r {
        Repr::EthernetIpv4 {
            operation,
            source_hardware_addr,
            source_protocol_addr,
            target_hardware_addr,
            target_protocol_addr,
        } => {
            EthernetAddress::lemma_view(source_hardware_addr);
            EthernetAddress::lemma_view(target_hardware_addr);
            Ipv4Address::lemma_view(source_protocol_addr);
            Ipv4Address::lemma_view(target_protocol_addr);
            let t = r.emit_spec(s);
            let o = r.octets_spec();
            assert(o.len() == 28);
            assert(t.subrange(0, 28) =~= o);
            assert(t.subrange(8, 14) =~= source_hardware_addr@);
            assert(t.subrange(14, 18) =~= source_protocol_addr@);
            assert(t.subrange(18, 24) =~= target_hardware_addr@);
            assert(t.subrange(24, 28) =~= target_protocol_addr@);
            assert(t[0] == 0 && t[1] == 1 && t[2] == 8 && t[3] == 0 && t[4] == 6 && t[5] == 4);
            assert(t[6] == o[6] && t[7] == o[7]);
        },
    }
}

/// Emitting the representation that was parsed leaves the packet as it was.
pub proof fn lemma_parse_then_emit(s: Seq<u8>, r: Repr)
    requires
        Repr::parse_spec(s) == Ok::<Repr, Error>(r),
    ensures
        r.emit_spec(s) == s,
{
    EthernetAddress::lemma_from_seq(s.subrange(8, 14));
    Ipv4Address::lemma_from_seq(s.subrange(14, 18));
    EthernetAddress::lemma_from_seq(s.subrange(18, 24));
    Ipv4Address::lemma_from_seq(s.subrange(24, 28));
    Operation::lemma_raw_from_raw(be16(s, 6));
    assert(r.emit_spec(s) =~= s);
}

} // verus!
