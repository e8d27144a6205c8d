//! Internet Group Management Protocol v1/v2 packets.

use vstd::prelude::*;
use vstd::arithmetic::power2::{pow2, lemma2_to64};
use crate::buf::{be16, put_be16, splice, Bytes, BytesMut, read_u16_at};
use crate::checksum::{complement, ones_sum, sums_to_ones, lemma_fill_then_verify};
use crate::error::{Error, Result};
use crate::ipv4::Address as Ipv4Address;
use crate::time::Duration;

verus! {

broadcast use vstd::array::group_array_axioms;

/// Internet Group Management Protocol v1/v2 message version/type.
#[derive(Debug, Clone, Copy, PartialEq, Eq, PartialOrd, Ord, Hash, Structural)]
pub enum Message {
    /// Membership query.
    MembershipQuery,
    /// Version 2 membership report.
    MembershipReportV2,
    /// Leave group.
    LeaveGroup,
    /// Version 1 membership report.
    MembershipReportV1,
    /// A value with no name of its own.
    Unknown(u8),
}

impl Message {
    /// The Message that a raw value denotes.
    pub open spec fn from_raw(v: u8) -> Message {
        if v == 0x11 {
            Message::MembershipQuery
        } else if v == 0x16 {
            Message::MembershipReportV2
        } else if v == 0x17 {
            Message::LeaveGroup
        } else if v == 0x12 {
            Message::MembershipReportV1
        } else {
            Message::Unknown(v)
        }
    }

    /// The raw value of a Message.
    pub open spec fn raw(self) -> u8 {
        match self {
            Message::MembershipQuery => 0x11,
            Message::MembershipReportV2 => 0x16,
            Message::LeaveGroup => 0x17,
            Message::MembershipReportV1 => 0x12,
            Message::Unknown(v) => v,
        }
    }

    /// The code table of the wire format, over every code `v`: each named
    /// value is written as the code assigned to it, that code and no other
    /// reads as it, and a code with no name reads as `Unknown` of itself.
    pub proof fn lemma_codes(v: u8)
        ensures
            Message::MembershipQuery.raw() == 0x11,
            Message::MembershipReportV2.raw() == 0x16,
            Message::LeaveGroup.raw() == 0x17,
            Message::MembershipReportV1.raw() == 0x12,
            (Message::from_raw(v) == Message::MembershipQuery) <==> v == 0x11,
            (Message::from_raw(v) == Message::MembershipReportV2) <==> v == 0x16,
            (Message::from_raw(v) == Message::LeaveGroup) <==> v == 0x17,
            (Message::from_raw(v) == Message::MembershipReportV1) <==> v == 0x12,
            v != 0x11 && v != 0x16 && v != 0x17 && v != 0x12 ==> Message::from_raw(v) == Message::Unknown(v),
    {
    }

    /// A value is canonical when it is what its own raw value denotes; only an
    /// `Unknown` that carries a named value is not.
    pub open spec fn is_canonical(self) -> bool {
        Message::from_raw(self.raw()) == self
    }

    /// Reading back the raw value of what a raw value denotes gives that value.
    pub proof fn lemma_raw_from_raw(v: u8)
        ensures
            Message::from_raw(v).raw() == v,
            Message::from_raw(v).is_canonical(),
    {
    }
}

impl From<u8> for Message {
    fn from(v: u8) -> (r: Message) {
        match v {
            0x11 => Message::MembershipQuery,
            0x16 => Message::MembershipReportV2,
            0x17 => Message::LeaveGroup,
            0x12 => Message::MembershipReportV1,
            _ => Message::Unknown(v),
        }
    }
}

impl vstd::std_specs::convert::FromSpecImpl<u8> for Message {
    open spec fn obeys_from_spec() -> bool {
        true
    }

    open spec fn from_spec(v: u8) -> Message {
        Message::from_raw(v)
    }
}

impl From<Message> for u8 {
    fn from(v: Message) -> (r: u8) {
        match v {
            Message::MembershipQuery => 0x11,
            Message::MembershipReportV2 => 0x16,
            Message::LeaveGroup => 0x17,
            Message::MembershipReportV1 => 0x12,
            Message::Unknown(x) => x,
        }
    }
}

impl vstd::std_specs::convert::FromSpecImpl<Message> for u8 {
    open spec fn obeys_from_spec() -> bool {
        true
    }

    open spec fn from_spec(v: Message) -> u8 {
        v.raw()
    }
}

/// The length of an IGMP v1/v2 packet.
pub const PACKET_LEN: usize = 8;

/// A read/write wrapper around an Internet Group Management Protocol v1/v2
/// packet buffer.
#[derive(Debug)]
pub struct Packet<T> {
    buffer: T,
}

impl<T> Packet<T> {
    /// The buffer underneath.
    pub closed spec fn inner(&self) -> T {
        self.buffer
    }

    /// Imbue a raw octet buffer with IGMPv2 packet structure.
    pub fn new_unchecked(buffer: T) -> (r: Packet<T>)
        ensures
            r.inner() == buffer,
    {
        Packet { buffer }
    }

    /// Consume the packet, returning the underlying buffer.
    pub fn into_inner(self) -> (r: T)
        ensures
            r == self.inner(),
    {
        self.buffer
    }
}

impl<T: Bytes> Packet<T> {
    /// The octets of the packet.
    pub open spec fn data(&self) -> Seq<u8> {
        self.inner().bytes()
    }

    /// Shorthand for a combination of [`Packet::new_unchecked`] and [`Packet::check_len`].
    pub fn new_checked(buffer: T) -> (r: Result<Packet<T>>)
        ensures
            r is Ok <==> buffer.bytes().len() >= PACKET_LEN,
            r matches Ok(p) ==> p.inner() == buffer,
    {
        let packet = Self::new_unchecked(buffer);
        match packet.check_len() {
            Ok(()) => Ok(packet),
            Err(e) => Err(e),
        }
    }

    /// Ensure that no accessor method will panic if called.
    /// Returns `Err(Error)` if the buffer is too short.
    pub fn check_len(&self) -> (r: Result<()>)
        ensures
            r is Ok <==> self.data().len() >= PACKET_LEN,
    {
        match self.checked_len() {
            Ok(_) => Ok(()),
            Err(e) => Err(e),
        }
    }

    /// The buffer's length, when it passes [`Packet::check_len`].
    fn checked_len(&self) -> (r: Result<usize>)
        ensures
            r is Ok <==> self.data().len() >= PACKET_LEN,
            r matches Ok(n) ==> n == self.data().len(),
    {
        let len = self.buffer.byte_len();
        if len < PACKET_LEN {
            Err(Error)
        } else {
            Ok(len)
        }
    }

    /// Return the message type field.
    pub fn msg_type(&self) -> (r: Message)
        requires
            self.data().len() >= 1,
        ensures
            r == Message::from_raw(self.data()[0]),
    {
        Message::from(self.buffer.as_bytes()[0])
    }

    /// Return the maximum response time, in units of 0.1 seconds, as it is
    /// encoded on the wire.
    pub fn max_resp_code(&self) -> (r: u8)
        requires
            self.data().len() >= 2,
        ensures
            r == self.data()[1],
    {
        self.buffer.as_bytes()[1]
    }

    /// Return the checksum field.
    pub fn checksum(&self) -> (r: u16)
        requires
            self.data().len() >= 4,
        ensures
            r == be16(self.data(), 2),
    {
        read_u16_at(self.buffer.as_bytes(), 2)
    }

    /// Return the source address field.
    pub fn group_addr(&self) -> (r: Ipv4Address)
        requires
            self.data().len() >= 8,
        ensures
            r == Ipv4Address::from_seq(self.data().subrange(4, 8)),
            r@ == self.data().subrange(4, 8),
    {
        Ipv4Address::from_bytes(crate::buf::sub(self.buffer.as_bytes(), 4, 4))
    }

    /// Validate the header checksum.
    pub fn verify_checksum(&self) -> (r: bool)
        ensures
            r == sums_to_ones(self.data()),
    {
        crate::checksum::data(self.buffer.as_bytes()) == 0xffff
    }
}

impl<T: BytesMut> Packet<T> {
    /// Set the message type field.
    pub fn set_msg_type(&mut self, value: Message)
        requires
            old(self).data().len() >= 1,
        ensures
            final(self).data() == old(self).data().update(0, value.raw()),
    {
        self.buffer.set_byte(0, value.into());
    }

    /// Set the maximum response time, in units of 0.1 seconds, as it is
    /// encoded on the wire.
    pub fn set_max_resp_code(&mut self, value: u8)
        requires
            old(self).data().len() >= 2,
        ensures
            final(self).data() == old(self).data().update(1, value),
    {
        self.buffer.set_byte(1, value);
    }

    /// Set the checksum field.
    pub fn set_checksum(&mut self, value: u16)
        requires
            old(self).data().len() >= 4,
        ensures
            final(self).data() == put_be16(old(self).data(), 2, value),
    {
        self.buffer.set_u16(2, value);
    }

    /// Set the group address field.
    pub fn set_group_address(&mut self, addr: Ipv4Address)
        requires
            old(self).data().len() >= 8,
        ensures
            final(self).data() == splice(old(self).data(), 4, addr@),
    {
        let o = addr.octets();
        self.buffer.copy_in(4, o.as_slice());
    }

    /// Compute and fill in the header checksum.
    pub fn fill_checksum(&mut self)
        requires
            old(self).data().len() >= 4,
        ensures
            final(self).data() == put_be16(
                put_be16(old(self).data(), 2, 0),
                2,
                complement(ones_sum(put_be16(old(self).data(), 2, 0))),
            ),
            sums_to_ones(final(self).data()),
    {
        self.set_checksum(0);
        let checksum = 0xffff - crate::checksum::data(self.buffer.as_bytes());
        self.set_checksum(checksum);
        proof {
            lemma_fill_then_verify(old(self).data(), 2);
        }
    }
}

/// A high-level representation of an Internet Group Management Protocol
/// v1/v2 header.
#[derive(Debug, PartialEq, Eq, Clone)]
pub enum Repr {
    MembershipQuery { max_resp_time: Duration, group_addr: Ipv4Address, version: IgmpVersion },
    MembershipReport { group_addr: Ipv4Address, version: IgmpVersion },
    LeaveGroup { group_addr: Ipv4Address },
}

/// Type of IGMP membership report version.
#[derive(Debug, PartialEq, Eq, Clone, Copy, Structural)]
pub enum IgmpVersion {
    /// IGMPv1
    Version1,
    /// IGMPv2
    Version2,
}

/// The time, in tenths of a second, that a Max Resp Code denotes: the value
/// itself below 128, and above it a four-bit mantissa with an implicit
/// leading one, scaled by a three-bit exponent.
pub open spec fn decisecs_of_code(code: u8) -> nat {
    if code < 128 {
        code as nat
    } else {
        (code % 16 + 16) as nat * pow2((code / 16 % 8 + 3) as nat)
    }
}

/// Halve `m` until it fits in five bits, counting the halvings from `e`, up
/// to eight of them.
pub open spec fn shrink(m: nat, e: nat) -> (nat, nat)
    decreases 8 - e,
{
    if m > 31 && e < 8 {
        shrink(m / 2, e + 1)
    } else {
        (m, e)
    }
}

/// The Max Resp Code for a time in tenths of a second: the time itself
/// below 128, the saturated code 255 from 31744 on, and in between the
/// mantissa and exponent of the time, rounded down.
pub open spec fn code_of_decisecs(d: nat) -> u8 {
    if d < 128 {
        d as u8
    } else if d < 31744 {
        let (m, e) = shrink(d / 8, 0);
        (128 + e * 16 + m % 16) as u8
    } else {
        255
    }
}

/// The time in milliseconds that a Max Resp Code denotes.
pub open spec fn millis_of_code(code: u8) -> nat {
    decisecs_of_code(code) * 100
}

/// The Max Resp Code for a time in milliseconds.
pub open spec fn code_of_millis(millis: nat) -> u8 {
    code_of_decisecs(millis / 100)
}

/// The largest value a halving count can leave at exponent `e` of a time
/// below 31744 tenths of a second.
spec fn mant_bound(e: u8) -> u64 {
    if e == 0 {
        3968
    } else if e == 1 {
        1984
    } else if e == 2 {
        992
    } else if e == 3 {
        496
    } else if e == 4 {
        248
    } else if e == 5 {
        124
    } else if e == 6 {
        62
    } else if e == 7 {
        31
    } else {
        0
    }
}

/// Decode the Max Resp Code into the duration it denotes.
pub fn max_resp_code_to_duration(value: u8) -> (r: Duration)
    ensures
        r.micros() == millis_of_code(value) * 1000,
{
    let value: u64 = value as u64;
    let decisecs = if value < 128 {
        value
    } else {
        let mant = value & 0xF;
        let exp = (value >> 4) & 0x7;
        proof {
            assert(mant == value % 16 && exp == value / 16 % 8 && mant < 16 && exp < 8) by (bit_vector)
                requires
                    mant == value & 0xF,
                    exp == (value >> 4) & 0x7,
            ;
            assert((mant | 0x10) == mant + 16) by (bit_vector)
                requires
                    mant < 16,
            ;
            lemma2_to64();
            assert((mant + 16) * pow2((exp + 3) as nat) <= 31 * 1024) by (nonlinear_arith)
                requires
                    mant + 16 <= 31,
                    pow2((exp + 3) as nat) <= 1024,
            ;
            vstd::bits::lemma_u64_shl_is_mul(mant | 0x10, (exp + 3) as u64);
        }
        (mant | 0x10) << (exp + 3)
    };
    Duration::from_millis(decisecs * 100)
}

/// Encode a duration as a Max Resp Code, rounding down, and saturating at
/// 255 for durations of 3174.4 seconds or more.
pub fn duration_to_max_resp_code(duration: Duration) -> (r: u8)
    ensures
        r == code_of_millis(duration.millis_spec() as nat),
{
    let decisecs = duration.total_millis() / 100;
    if decisecs < 128 {
        decisecs as u8
    } else if decisecs < 31744 {
        let mut mant = decisecs >> 3;
        let mut exp = 0u8;
        proof {
            assert(mant == decisecs / 8) by (bit_vector)
                requires
                    mant == decisecs >> 3,
            ;
        }
        while mant > 0x1F && exp < 0x8
            invariant
                exp <= 7,
                mant < mant_bound(exp),
                shrink(mant as nat, exp as nat) == shrink((decisecs / 8) as nat, 0),
            decreases 8 - exp,
        {
            let m0 = mant;
            mant >>= 1;
            proof {
                assert(mant == m0 / 2) by (bit_vector)
                    requires
                        mant == m0 >> 1,
                ;
            }
            exp += 1;
        }
        let m8 = mant as u8;
        proof {
            assert(mant <= 31);
            assert(m8 == mant);
            assert((0x80u8 | (exp << 4u8) | (m8 & 0xFu8)) == 128 + exp * 16 + m8 % 16) by (bit_vector)
                requires
                    exp <= 7,
                    m8 <= 31,
            ;
        }
        0x80 | (exp << 4) | (m8 & 0xF)
    } else {
        0xFF
    }
}

/// The duration a Max Resp Code denotes encodes back to that code.
pub proof fn lemma_code_roundtrip(code: u8)
    ensures
        code_of_millis(millis_of_code(code)) == code,
{
    let d = decisecs_of_code(code);
    assert(d * 100 / 100 == d) by (nonlinear_arith);
    if code >= 128 {
        let k = (code / 16 % 8) as nat;
        let m = (code % 16 + 16) as nat;
        lemma2_to64();
        vstd::arithmetic::power2::lemma_pow2_adds(k, 3);
        assert(d == m * pow2(k) * 8) by (nonlinear_arith)
            requires
                d == m * pow2(k + 3),
                pow2(k + 3) == pow2(k) * pow2(3),
                pow2(3) == 8,
        ;
        assert(d / 8 == m * pow2(k)) by (nonlinear_arith)
            requires
                d == m * pow2(k) * 8,
        ;
        if k < 6 {
            vstd::arithmetic::power2::lemma_pow2_strictly_increases(k, 6);
        }
        assert(pow2(k) <= 128 && pow2(k) >= 1);
        assert(128 <= d <= 31744) by (nonlinear_arith)
            requires
                d == m * pow2(k) * 8,
                16 <= m <= 31,
                1 <= pow2(k) <= 128,
        ;
        if d == 31744 {
            if k < 7 {
                assert(pow2(k) <= 64);
                assert(d <= 31 * 64 * 8) by (nonlinear_arith)
                    requires
                        d == m * pow2(k) * 8,
                        m <= 31,
                        pow2(k) <= 64,
                ;
            }
            assert(k == 7);
            assert(m == 31) by (nonlinear_arith)
                requires
                    d == m * pow2(k) * 8,
                    pow2(k) == 128,
                    d == 31744,
            ;
            return;
        }
        lemma_shrink_scaled(m, k, 0);
        assert(code == 128 + k * 16 + m % 16);
    }
}

/// Halving a five-bit value with its top bit set, scaled up by `2^j`,
/// undoes the scaling.
proof fn lemma_shrink_scaled(m: nat, j: nat, e: nat)
    requires
        16 <= m <= 31,
        e + j <= 8,
    ensures
        shrink(m * pow2(j), e) == (m, e + j),
    decreases j,
{
    vstd::arithmetic::power2::lemma_pow2_pos(j);
    if j == 0 {
        assert(pow2(0) == 1) by {
            lemma2_to64();
        }
    } else {
        vstd::arithmetic::power2::lemma_pow2_unfold(j);
        vstd::arithmetic::power2::lemma_pow2_pos((j - 1) as nat);
        let p = pow2((j - 1) as nat);
        assert(m * pow2(j) == (m * p) * 2) by (nonlinear_arith)
            requires
                pow2(j) == 2 * p,
        ;
        assert(m * p >= 16) by (nonlinear_arith)
            requires
                m >= 16,
                p >= 1,
        ;
        assert((m * p) * 2 / 2 == m * p);
        lemma_shrink_scaled(m, (j - 1) as nat, e + 1);
    }
}

/// What parsing `s` gives.
pub open spec fn parse_spec(s: Seq<u8>) -> Result<Repr> {
    let addr = Ipv4Address::from_seq(s.subrange(4, 8));
    let unspecified_or_multicast = s.subrange(4, 8) == seq![0u8, 0, 0, 0] || s[4] / 16 == 14;
    if s.len() < 8 || !unspecified_or_multicast {
        Err(Error)
    } else if s[0] == 0x11 {
        Ok(
            Repr::MembershipQuery {
                max_resp_time: Duration::spec_from_micros((millis_of_code(s[1]) * 1000) as u64),
                group_addr: addr,
                version: if s[1] == 0 {
                    IgmpVersion::Version1
                } else {
                    IgmpVersion::Version2
                },
            },
        )
    } else if s[0] == 0x16 {
        Ok(Repr::MembershipReport { group_addr: addr, version: IgmpVersion::Version2 })
    } else if s[0] == 0x17 {
        Ok(Repr::LeaveGroup { group_addr: addr })
    } else if s[0] == 0x12 {
        Ok(Repr::MembershipReport { group_addr: addr, version: IgmpVersion::Version1 })
    } else {
        Err(Error)
    }
}

impl Repr {
    /// Parse the IGMP packet, whose checksum is not verified here.
    pub fn parse<T: Bytes>(packet: &Packet<T>) -> (r: Result<Repr>)
        ensures
            r == parse_spec(packet.data()),
    {
        match packet.check_len() {
            Ok(()) => {},
            Err(e) => return Err(e),
        }
        let addr = packet.group_addr();
        if !addr.is_unspecified() && !addr.is_multicast() {
            return Err(Error);
        }
        match packet.msg_type() {
            Message::MembershipQuery => {
                let max_resp_time = max_resp_code_to_duration(packet.max_resp_code());
                let version = if packet.max_resp_code() == 0 {
                    IgmpVersion::Version1
                } else {
                    IgmpVersion::Version2
                };
                proof {
                    Duration::lemma_micros(max_resp_time);
                }
                Ok(Repr::MembershipQuery { max_resp_time, group_addr: addr, version })
            },
            Message::MembershipReportV2 => Ok(
                Repr::MembershipReport {
                    group_addr: packet.group_addr(),
                    version: IgmpVersion::Version2,
                },
            ),
            Message::LeaveGroup => Ok(Repr::LeaveGroup { group_addr: packet.group_addr() }),
            Message::MembershipReportV1 => Ok(
                Repr::MembershipReport {
                    group_addr: packet.group_addr(),
                    version: IgmpVersion::Version1,
                },
            ),
            _ => Err(Error),
        }
    }

    /// Return the length of a packet that will be emitted from this
    /// high-level representation.
    pub fn buffer_len(&self) -> (r: usize)
        ensures
            r == PACKET_LEN,
    {
        PACKET_LEN
    }

    /// `s` with this message written over it, the checksum field still zero.
    pub open spec fn body_spec(self, s: Seq<u8>) -> Seq<u8> {
        put_be16(
            match self {
                Repr::MembershipQuery { max_resp_time, group_addr, version } => splice(
                    s.update(0, 0x11u8).update(
                        1,
                        if version is Version1 {
                            0u8
                        } else {
                            code_of_millis(max_resp_time.millis_spec() as nat)
                        },
                    ),
                    4,
                    group_addr@,
                ),
                Repr::MembershipReport { group_addr, version } => splice(
                    s.update(
                        0,
                        if version is Version1 {
                            0x12u8
                        } else {
                            0x16u8
                        },
                    ).update(1, 0u8),
                    4,
                    group_addr@,
                ),
                Repr::LeaveGroup { group_addr } => splice(s.update(0, 0x17u8), 4, group_addr@),
            },
            2,
            0,
        )
    }

    /// `s` with this message emitted over it and its checksum filled in.
    pub open spec fn emit_spec(self, s: Seq<u8>) -> Seq<u8> {
        put_be16(self.body_spec(s), 2, complement(ones_sum(self.body_spec(s))))
    }

    /// Emit a high-level representation into an Internet Group Management
    /// Protocol v2 packet.
    pub fn emit<T: BytesMut>(&self, packet: &mut Packet<T>)
        requires
            old(packet).data().len() >= PACKET_LEN,
        ensures
            final(packet).data() == self.emit_spec(old(packet).data()),
            sums_to_ones(final(packet).data()),
    {
        let ghost s0 = packet.data();
        match *self {
            Repr::MembershipQuery { max_resp_time, group_addr, version } => {
                packet.set_msg_type(Message::MembershipQuery);
                match version {
                    IgmpVersion::Version1 => packet.set_max_resp_code(0),
                    IgmpVersion::Version2 => packet.set_max_resp_code(
                        duration_to_max_resp_code(max_resp_time),
                    ),
                }
                packet.set_group_address(group_addr);
            },
            Repr::MembershipReport { group_addr, version } => {
                match version {
                    IgmpVersion::Version1 => packet.set_msg_type(Message::MembershipReportV1),
                    IgmpVersion::Version2 => packet.set_msg_type(Message::MembershipReportV2),
                };
                packet.set_max_resp_code(0);
                packet.set_group_address(group_addr);
            },
            Repr::LeaveGroup { group_addr } => {
                packet.set_msg_type(Message::LeaveGroup);
                packet.set_group_address(group_addr);
            },
        }
        packet.fill_checksum();
        proof {
            let b = self.body_spec(s0);
            assert(put_be16(b, 2, 0) =~= b);
        }
    }
}

/// A representation parses back from what it emits when its group address
/// is unspecified or multicast, and a query's response time is one that a
/// code denotes exactly: zero for a version 1 query, and for version 2 the
/// time of a code other than zero.
pub open spec fn emit_parses_back(r: Repr) -> bool {
    let g = match r {
        Repr::MembershipQuery { group_addr, .. } => group_addr,
        Repr::MembershipReport { group_addr, .. } => group_addr,
        Repr::LeaveGroup { group_addr } => group_addr,
    };
    &&& g@ == seq![0u8, 0, 0, 0] || g@[0] / 16 == 14
    &&& r matches Repr::MembershipQuery { max_resp_time, version, .. } ==> {
        let c = code_of_millis(max_resp_time.millis_spec() as nat);
        if version is Version1 {
            max_resp_time.micros() == 0
        } else {
            c != 0 && max_resp_time.micros() == millis_of_code(c) * 1000
        }
    }
}

/// Parsing the message that was emitted gives back the representation.
pub proof fn lemma_emit_then_parse(r: Repr, s: Seq<u8>)
    requires
        s.len() >= PACKET_LEN,
        emit_parses_back(r),
    ensures
        parse_spec(r.emit_spec(s)) == Ok::<Repr, Error>(r),
{
    let b = r.body_spec(s);
    let t = r.emit_spec(s);
    let g = match r {
        Repr::MembershipQuery { group_addr, .. } => group_addr,
        Repr::MembershipReport { group_addr, .. } => group_addr,
        Repr::LeaveGroup { group_addr } => group_addr,
    };
    Ipv4Address::lemma_view(g);
    assert(t.subrange(4, 8) =~= g@);
    assert(t[0] == b[0] && t[1] == b[1]);
    match r {
        Repr::MembershipQuery { max_resp_time, group_addr, version } => {
            Duration::lemma_micros(max_resp_time);
            if version is Version1 {
                assert(millis_of_code(0) == 0);
            }
        },
        _ => {},
    }
}

} // verus!
