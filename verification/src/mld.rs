//! Multicast Listener Discovery version 2 messages, carried in ICMPv6
//! packets.

use vstd::prelude::*;
use crate::buf::{be16, put_be16, splice, Bytes, BytesMut, BytesSliceMut, Ref, read_u16_at};
use crate::error::{Error, Result};
use crate::icmpv6::{Message, Packet, len_ok as packet_len_ok};
use crate::ipv6::Address as Ipv6Address;

verus! {

broadcast use vstd::array::group_array_axioms;

/// MLDv2 Multicast Listener Report Record Type.
#[derive(Debug, Clone, Copy, PartialEq, Eq, PartialOrd, Ord, Hash, Structural)]
pub enum RecordType {
    /// Interface has a filter mode of INCLUDE for the specified multicast address.
    ModeIsInclude,
    /// Interface has a filter mode of EXCLUDE for the specified multicast address.
    ModeIsExclude,
    /// Interface has changed to a filter mode of INCLUDE for the specified multicast address.
    ChangeToInclude,
    /// Interface has changed to a filter mode of EXCLUDE for the specified multicast address.
    ChangeToExclude,
    /// Interface wishes to listen to the sources in the specified list.
    AllowNewSources,
    /// Interface no longer wishes to listen to the sources in the specified list.
    BlockOldSources,
    /// A value with no name of its own.
    Unknown(u8),
}

impl RecordType {
    /// The RecordType that a raw value denotes.
    pub open spec fn from_raw(v: u8) -> RecordType {
        if v == 0x01 {
            RecordType::ModeIsInclude
        } else if v == 0x02 {
            RecordType::ModeIsExclude
        } else if v == 0x03 {
            RecordType::ChangeToInclude
        } else if v == 0x04 {
            RecordType::ChangeToExclude
        } else if v == 0x05 {
            RecordType::AllowNewSources
        } else if v == 0x06 {
            RecordType::BlockOldSources
        } else {
            RecordType::Unknown(v)
        }
    }

    /// The raw value of a RecordType.
    pub open spec fn raw(self) -> u8 {
        match self {
            RecordType::ModeIsInclude => 0x01,
            RecordType::ModeIsExclude => 0x02,
            RecordType::ChangeToInclude => 0x03,
            RecordType::ChangeToExclude => 0x04,
            RecordType::AllowNewSources => 0x05,
            RecordType::BlockOldSources => 0x06,
            RecordType::Unknown(v) => v,
        }
    }

    /// The code table of the wire format, over every code `v`: each named
    /// value is written as the code assigned to it, that code and no other
    /// reads as it, and a code with no name reads as `Unknown` of itself.
    pub proof fn lemma_codes(v: u8)
        ensures
            RecordType::ModeIsInclude.raw() == 0x01,
            RecordType::ModeIsExclude.raw() == 0x02,
            RecordType::ChangeToInclude.raw() == 0x03,
            RecordType::ChangeToExclude.raw() == 0x04,
            RecordType::AllowNewSources.raw() == 0x05,
            RecordType::BlockOldSources.raw() == 0x06,
            (RecordType::from_raw(v) == RecordType::ModeIsInclude) <==> v == 0x01,
            (RecordType::from_raw(v) == RecordType::ModeIsExclude) <==> v == 0x02,
            (RecordType::from_raw(v) == RecordType::ChangeToInclude) <==> v == 0x03,
            (RecordType::from_raw(v) == RecordType::ChangeToExclude) <==> v == 0x04,
            (RecordType::from_raw(v) == RecordType::AllowNewSources) <==> v == 0x05,
            (RecordType::from_raw(v) == RecordType::BlockOldSources) <==> v == 0x06,
            v != 0x01 && v != 0x02 && v != 0x03 && v != 0x04 && v != 0x05 && v != 0x06 ==> RecordType::from_raw(v) == RecordType::Unknown(v),
    {
    }

    /// A value is canonical when it is what its own raw value denotes; only an
    /// `Unknown` that carries a named value is not.
    pub open spec fn is_canonical(self) -> bool {
        RecordType::from_raw(self.raw()) == self
    }

    /// Reading back the raw value of what a raw value denotes gives that value.
    pub proof fn lemma_raw_from_raw(v: u8)
        ensures
            RecordType::from_raw(v).raw() == v,
            RecordType::from_raw(v).is_canonical(),
    {
    }
}

impl From<u8> for RecordType {
    fn from(v: u8) -> (r: RecordType) {
        match v {
            0x01 => RecordType::ModeIsInclude,
            0x02 => RecordType::ModeIsExclude,
            0x03 => RecordType::ChangeToInclude,
            0x04 => RecordType::ChangeToExclude,
            0x05 => RecordType::AllowNewSources,
            0x06 => RecordType::BlockOldSources,
            _ => RecordType::Unknown(v),
        }
    }
}

impl vstd::std_specs::convert::FromSpecImpl<u8> for RecordType {
    open spec fn obeys_from_spec() -> bool {
        true
    }

    open spec fn from_spec(v: u8) -> RecordType {
        RecordType::from_raw(v)
    }
}

impl From<RecordType> for u8 {
    fn from(v: RecordType) -> (r: u8) {
        match v {
            RecordType::ModeIsInclude => 0x01,
            RecordType::ModeIsExclude => 0x02,
            RecordType::ChangeToInclude => 0x03,
            RecordType::ChangeToExclude => 0x04,
            RecordType::AllowNewSources => 0x05,
            RecordType::BlockOldSources => 0x06,
            RecordType::Unknown(x) => x,
        }
    }
}

impl vstd::std_specs::convert::FromSpecImpl<RecordType> for u8 {
    open spec fn obeys_from_spec() -> bool {
        true
    }

    open spec fn from_spec(v: RecordType) -> u8 {
        v.raw()
    }
}

/// Read the sixteen octets of an IPv6 address at `at`.
pub(crate) fn read_ipv6_addr_at(data: &[u8], at: usize) -> (r: Ipv6Address)
    requires
        at + 16 <= data@.len(),
    ensures
        r == Ipv6Address::from_seq(data@.subrange(at as int, at + 16)),
        r@ == data@.subrange(at as int, at + 16),
{
    Ipv6Address::from_bytes(crate::buf::sub(data, at, 16))
}

impl<T: Bytes> Packet<T> {
    /// Return the maximum response code field.
    pub fn max_resp_code(&self) -> (r: u16)
        requires
            self.data().len() >= 6,
        ensures
            r == be16(self.data(), 4),
    {
        read_u16_at(self.buffer_ref().as_bytes(), 4)
    }

    /// Return the address being queried.
    pub fn mcast_addr(&self) -> (r: Ipv6Address)
        requires
            self.data().len() >= 24,
        ensures
            r == Ipv6Address::from_seq(self.data().subrange(8, 24)),
    {
        read_ipv6_addr_at(self.buffer_ref().as_bytes(), 8)
    }

    /// Return the Suppress Router-Side Processing flag.
    pub fn s_flag(&self) -> (r: bool)
        requires
            self.data().len() >= 25,
        ensures
            r == ((self.data()[24] / 8) % 2 == 1),
    {
        let b = self.buffer_ref().as_bytes()[24];
        proof {
            assert(((b & 0x08) != 0) == ((b / 8) % 2 == 1)) by (bit_vector);
        }
        (b & 0x08) != 0
    }

    /// Return the Querier's Robustness Variable.
    pub fn qrv(&self) -> (r: u8)
        requires
            self.data().len() >= 25,
        ensures
            r == self.data()[24] % 8,
            r < 8,
    {
        self.buffer_ref().as_bytes()[24] % 8
    }

    /// Return the Querier's Query Interval Code.
    pub fn qqic(&self) -> (r: u8)
        requires
            self.data().len() >= 26,
        ensures
            r == self.data()[25],
    {
        self.buffer_ref().as_bytes()[25]
    }

    /// Return the number of sources field.
    pub fn num_srcs(&self) -> (r: u16)
        requires
            self.data().len() >= 28,
        ensures
            r == be16(self.data(), 26),
    {
        read_u16_at(self.buffer_ref().as_bytes(), 26)
    }

    /// Return the number of multicast address records.
    pub fn nr_mcast_addr_rcrds(&self) -> (r: u16)
        requires
            self.data().len() >= 8,
        ensures
            r == be16(self.data(), 6),
    {
        read_u16_at(self.buffer_ref().as_bytes(), 6)
    }
}

impl<T: BytesMut> Packet<T> {
    /// Set the maximum response code field.
    pub fn set_max_resp_code(&mut self, code: u16)
        requires
            old(self).data().len() >= 6,
        ensures
            final(self).data() == put_be16(old(self).data(), 4, code),
            final(self).ty() == old(self).ty(),
    {
        self.buffer_mut().set_u16(4, code);
    }

    /// Set the address being queried.
    pub fn set_mcast_addr(&mut self, addr: Ipv6Address)
        requires
            old(self).data().len() >= 24,
        ensures
            final(self).data() == splice(old(self).data(), 8, addr@),
            final(self).ty() == old(self).ty(),
    {
        proof {
            Ipv6Address::lemma_view(addr);
        }
        self.buffer_mut().copy_in(8, addr.as_bytes());
    }

    /// Set the Suppress Router-Side Processing flag.
    pub fn set_s_flag(&mut self)
        requires
            old(self).data().len() >= 25,
        ensures
            final(self).data() == old(self).data().update(24, (8 + old(self).data()[24] % 8) as u8),
            final(self).ty() == old(self).ty(),
    {
        let current = self.buffer_ref().as_bytes()[24];
        proof {
            assert(0x8 | (current & 0x7) == 8 + current % 8) by (bit_vector);
        }
        self.buffer_mut().set_byte(24, 0x8 | (current & 0x7));
    }

    /// Clear the Suppress Router-Side Processing flag.
    pub fn clear_s_flag(&mut self)
        requires
            old(self).data().len() >= 25,
        ensures
            final(self).data() == old(self).data().update(24, old(self).data()[24] % 8),
            final(self).ty() == old(self).ty(),
    {
        let current = self.buffer_ref().as_bytes()[24];
        proof {
            assert(current & 0x7 == current % 8) by (bit_vector);
        }
        self.buffer_mut().set_byte(24, current & 0x7);
    }

    /// Set the Querier's Robustness Variable, which is below eight.
    pub fn set_qrv(&mut self, value: u8)
        requires
            old(self).data().len() >= 25,
            value < 8,
        ensures
            final(self).data() == old(self).data().update(
                24,
                ((old(self).data()[24] / 8) % 2 * 8 + value) as u8,
            ),
            final(self).ty() == old(self).ty(),
    {
        let current = self.buffer_ref().as_bytes()[24];
        proof {
            assert((current & 0x8) | (value & 0x7) == (current / 8) % 2 * 8 + value) by (bit_vector)
                requires
                    value < 8,
            ;
        }
        self.buffer_mut().set_byte(24, (current & 0x8) | (value & 0x7));
    }

    /// Set the Querier's Query Interval Code.
    pub fn set_qqic(&mut self, value: u8)
        requires
            old(self).data().len() >= 26,
        ensures
            final(self).data() == old(self).data().update(25, value),
            final(self).ty() == old(self).ty(),
    {
        self.buffer_mut().set_byte(25, value);
    }

    /// Set the number of sources field.
    pub fn set_num_srcs(&mut self, value: u16)
        requires
            old(self).data().len() >= 28,
        ensures
            final(self).data() == put_be16(old(self).data(), 26, value),
            final(self).ty() == old(self).ty(),
    {
        self.buffer_mut().set_u16(26, value);
    }

    /// Set the number of multicast address records.
    pub fn set_nr_mcast_addr_rcrds(&mut self, value: u16)
        requires
            old(self).data().len() >= 8,
        ensures
            final(self).data() == put_be16(old(self).data(), 6, value),
            final(self).ty() == old(self).ty(),
    {
        self.buffer_mut().set_u16(6, value);
    }
}

/// The length of the fixed part of an address record.
pub const RECORD_LEN: usize = 20;

/// A read/write wrapper around an MLDv2 Listener Report Message Address
/// Record.
#[derive(Debug, PartialEq, Eq, Clone)]
pub struct AddressRecord<T> {
    buffer: T,
}

impl<T> AddressRecord<T> {
    /// The buffer underneath.
    pub closed spec fn inner(&self) -> T {
        self.buffer
    }

    /// Imbue a raw octet buffer with an address record structure.
    pub fn new_unchecked(buffer: T) -> (r: AddressRecord<T>)
        ensures
            r.inner() == buffer,
    {
        AddressRecord { buffer }
    }

    /// Consume the record, returning the underlying buffer.
    pub fn into_inner(self) -> (r: T)
        ensures
            r == self.inner(),
    {
        self.buffer
    }
}

impl<T: Bytes> AddressRecord<T> {
    /// The octets of the record.
    pub open spec fn data(&self) -> Seq<u8> {
        self.inner().bytes()
    }

    /// Shorthand for a combination of [`AddressRecord::new_unchecked`] and
    /// [`AddressRecord::check_len`].
    pub fn new_checked(buffer: T) -> (r: Result<AddressRecord<T>>)
        ensures
            r is Ok <==> buffer.bytes().len() >= RECORD_LEN,
            r matches Ok(a) ==> a.inner() == buffer,
    {
        let packet = Self::new_unchecked(buffer);
        match packet.check_len() {
            Ok(()) => Ok(packet),
            Err(e) => Err(e),
        }
    }

    /// Ensure that no accessor method will panic if called.
    /// Returns `Err(Error)` if the buffer is too short.
    pub fn check_len(&self) -> (r: Result<()>)
        ensures
            r is Ok <==> self.data().len() >= RECORD_LEN,
    {
        match self.checked_len() {
            Ok(_) => Ok(()),
            Err(e) => Err(e),
        }
    }

    /// The buffer's length, when it passes [`AddressRecord::check_len`].
    pub(crate) fn checked_len(&self) -> (r: Result<usize>)
        ensures
            r is Ok <==> self.data().len() >= RECORD_LEN,
            r matches Ok(n) ==> n == self.data().len(),
    {
        let len = self.buffer.byte_len();
        if len < RECORD_LEN {
            Err(Error)
        } else {
            Ok(len)
        }
    }

    /// Return the record type for the given sources.
    pub fn record_type(&self) -> (r: RecordType)
        requires
            self.data().len() >= 1,
        ensures
            r == RecordType::from_raw(self.data()[0]),
    {
        RecordType::from(self.buffer.as_bytes()[0])
    }

    /// Return the length of the auxiliary data, in 32-bit words.
    pub fn aux_data_len(&self) -> (r: u8)
        requires
            self.data().len() >= 2,
        ensures
            r == self.data()[1],
    {
        self.buffer.as_bytes()[1]
    }

    /// Return the number of sources field.
    pub fn num_srcs(&self) -> (r: u16)
        requires
            self.data().len() >= 4,
        ensures
            r == be16(self.data(), 2),
    {
        read_u16_at(self.buffer.as_bytes(), 2)
    }

    /// Return the multicast address field.
    pub fn mcast_addr(&self) -> (r: Ipv6Address)
        requires
            self.data().len() >= 20,
        ensures
            r == Ipv6Address::from_seq(self.data().subrange(4, 20)),
    {
        read_ipv6_addr_at(self.buffer.as_bytes(), 4)
    }
}

impl<'a> AddressRecord<Ref<'a>> {
    /// [`AddressRecord::new_checked`] over a [`Ref`].
    pub fn new_checked_ref(buffer: Ref<'a>) -> (r: Result<AddressRecord<Ref<'a>>>)
        ensures
            r is Ok <==> buffer.view_bytes().len() >= RECORD_LEN,
            r matches Ok(a) ==> a.inner() == buffer,
    {
        let record = AddressRecord::new_unchecked(buffer);
        match record.checked_len() {
            Ok(_) => Ok(record),
            Err(e) => Err(e),
        }
    }

    /// Return the source addresses and auxiliary data that follow the fixed
    /// part, with the buffer's lifetime.
    pub fn payload(&self) -> (r: &'a [u8])
        requires
            self.data().len() >= RECORD_LEN,
        ensures
            r@ == self.data().subrange(20, self.data().len() as int),
    {
        let len = self.buffer.as_bytes().len();
        self.buffer.window(20, len)
    }
}

impl<T: BytesMut> AddressRecord<T> {
    /// Set the record type.
    pub fn set_record_type(&mut self, rty: RecordType)
        requires
            old(self).data().len() >= 1,
        ensures
            final(self).data() == old(self).data().update(0, rty.raw()),
    {
        self.buffer.set_byte(0, rty.into());
    }

    /// Set the length of the auxiliary data, in 32-bit words.
    pub fn set_aux_data_len(&mut self, len: u8)
        requires
            old(self).data().len() >= 2,
        ensures
            final(self).data() == old(self).data().update(1, len),
    {
        self.buffer.set_byte(1, len);
    }

    /// Set the number of sources field.
    pub fn set_num_srcs(&mut self, num_srcs: u16)
        requires
            old(self).data().len() >= 4,
        ensures
            final(self).data() == put_be16(old(self).data(), 2, num_srcs),
    {
        self.buffer.set_u16(2, num_srcs);
    }

    /// Set the multicast address field, which must be a multicast address.
    pub fn set_mcast_addr(&mut self, addr: Ipv6Address)
        requires
            old(self).data().len() >= 20,
            addr@[0] == 0xff,
        ensures
            final(self).data() == splice(old(self).data(), 4, addr@),
    {
        proof {
            Ipv6Address::lemma_view(addr);
        }
        self.buffer.copy_in(4, addr.as_bytes());
    }
}

impl<T: BytesSliceMut> AddressRecord<T> {
    /// Return a mutable pointer to the source addresses and auxiliary data.
    pub fn payload_mut(&mut self) -> (r: &mut [u8])
        requires
            old(self).data().len() >= RECORD_LEN,
        ensures
            r@ == old(self).data().subrange(20, old(self).data().len() as int),
            final(self).data() == old(self).data().subrange(0, 20) + final(r)@,
    {
        let data = self.buffer.as_bytes_mut();
        let (_fixed, payload) = data.split_at_mut(RECORD_LEN);
        payload
    }
}

/// A high level representation of an MLDv2 Listener Report Message Address
/// Record.
#[derive(Debug, PartialEq, Eq, Clone, Copy)]
pub struct AddressRecordRepr<'a> {
    pub record_type: RecordType,
    pub aux_data_len: u8,
    pub num_srcs: u16,
    pub mcast_addr: Ipv6Address,
    pub payload: &'a [u8],
}

impl<'a> AddressRecordRepr<'a> {
    /// Create a new MLDv2 address record representation with an empty
    /// payload.
    pub fn new(record_type: RecordType, mcast_addr: Ipv6Address) -> (r: AddressRecordRepr<'a>)
        ensures
            r.record_type == record_type,
            r.aux_data_len == 0,
            r.num_srcs == 0,
            r.mcast_addr == mcast_addr,
            r.payload@.len() == 0,
    {
        let empty: &'a [u8] = &[];
        AddressRecordRepr { record_type, aux_data_len: 0, num_srcs: 0, mcast_addr, payload: empty }
    }

    /// This representation is what parsing the record in `s` gives.
    pub open spec fn parsed_from(self, s: Seq<u8>) -> bool {
        &&& self.record_type == RecordType::from_raw(s[0])
        &&& self.aux_data_len == s[1]
        &&& self.num_srcs == be16(s, 2)
        &&& self.mcast_addr == Ipv6Address::from_seq(s.subrange(4, 20))
        &&& self.payload@ == s.subrange(20, s.len() as int)
    }

    /// Parse an MLDv2 address record over a borrowed buffer, which holds at
    /// least the fixed part, and return a high-level representation.
    pub fn parse<T: Bytes + ?Sized>(record: &AddressRecord<&'a T>) -> (r: Result<AddressRecordRepr<'a>>)
        requires
            record.data().len() >= RECORD_LEN,
        ensures
            r matches Ok(x) && x.parsed_from(record.data()),
    {
        Self::parse_ref(&AddressRecord::new_unchecked(Ref::new(T::as_bytes(record.buffer))))
    }

    /// Parse an MLDv2 address record over a [`Ref`], which holds at least
    /// the fixed part, and return a high-level representation.
    pub fn parse_ref(record: &AddressRecord<Ref<'a>>) -> (r: Result<AddressRecordRepr<'a>>)
        requires
            record.data().len() >= RECORD_LEN,
        ensures
            r matches Ok(x) && x.parsed_from(record.data()),
    {
        Ok(
            AddressRecordRepr {
                num_srcs: record.num_srcs(),
                mcast_addr: record.mcast_addr(),
                record_type: record.record_type(),
                aux_data_len: record.aux_data_len(),
                payload: record.payload(),
            },
        )
    }

    /// Return the length of a record that will be emitted from this
    /// high-level representation, not including any payload data.
    pub fn buffer_len(&self) -> (r: usize)
        ensures
            r == RECORD_LEN,
    {
        RECORD_LEN
    }

    /// The twenty octets of the fixed part this record is emitted as.
    pub open spec fn octets_spec(self) -> Seq<u8> {
        seq![
            self.record_type.raw(),
            self.aux_data_len,
            (self.num_srcs / 256) as u8,
            (self.num_srcs % 256) as u8,
        ] + self.mcast_addr@
    }

    /// Emit the fixed part of a high-level representation into an MLDv2
    /// address record; the payload is the caller's to write.
    pub fn emit<T: BytesMut>(&self, record: &mut AddressRecord<T>)
        requires
            old(record).data().len() >= RECORD_LEN,
            self.mcast_addr@[0] == 0xff,
        ensures
            final(record).data() == splice(old(record).data(), 0, self.octets_spec()),
    {
        let ghost s0 = record.data();
        record.set_record_type(self.record_type);
        record.set_aux_data_len(self.aux_data_len);
        record.set_num_srcs(self.num_srcs);
        record.set_mcast_addr(self.mcast_addr);
        proof {
            Ipv6Address::lemma_view(self.mcast_addr);
        }
        assert(record.data() =~= splice(s0, 0, self.octets_spec()));
    }
}

/// The fixed parts of a sequence of records, one after the other.
pub open spec fn records_octets(records: Seq<AddressRecordRepr>) -> Seq<u8> {
    Seq::new(20 * records.len(), |i: int| records[i / 20].octets_spec()[i % 20])
}

/// The total length of the fixed parts of a sequence of records.
pub(crate) fn records_len(records: &[AddressRecordRepr]) -> (r: usize)
    requires
        20 * records@.len() <= usize::MAX,
    ensures
        r == 20 * records@.len(),
{
    let n = records.len();
    let mut sum: usize = 0;
    let mut i: usize = 0;
    while i < n
        invariant
            n == records@.len(),
            20 * n <= usize::MAX,
            i <= n,
            sum == 20 * i,
        decreases n - i,
    {
        sum = sum + records[i].buffer_len();
        i = i + 1;
    }
    sum
}

/// A high-level representation of an MLDv2 packet header.
#[derive(Debug, PartialEq, Eq, Clone, Copy)]
pub enum Repr<'a> {
    Query {
        max_resp_code: u16,
        mcast_addr: Ipv6Address,
        s_flag: bool,
        qrv: u8,
        qqic: u8,
        num_srcs: u16,
        data: &'a [u8],
    },
    Report { nr_mcast_addr_rcrds: u16, data: &'a [u8] },
    ReportRecordReprs(&'a [AddressRecordRepr<'a>]),
}

impl<'a> Repr<'a> {
    /// This representation is what parsing the message `s` gives, when
    /// parsing succeeds.
    pub open spec fn parsed_from(self, s: Seq<u8>) -> bool {
        match self {
            Repr::Query { max_resp_code, mcast_addr, s_flag, qrv, qqic, num_srcs, data } => s[0]
                == 0x82 && max_resp_code == be16(s, 4) && mcast_addr == Ipv6Address::from_seq(
                s.subrange(8, 24),
            ) && s_flag == ((s[24] / 8) % 2 == 1) && qrv == s[24] % 8 && qqic == s[25]
                && num_srcs == be16(s, 26) && data@ == s.subrange(28, s.len() as int),
            Repr::Report { nr_mcast_addr_rcrds, data } => s[0] == 0x8f && nr_mcast_addr_rcrds
                == be16(s, 6) && data@ == s.subrange(8, s.len() as int),
            Repr::ReportRecordReprs(_) => false,
        }
    }

    /// Parse an MLDv2 packet and return a high-level representation.
    pub fn parse(packet: &Packet<Ref<'a>>) -> (r: Result<Repr<'a>>)
        ensures
            r is Ok <==> packet_len_ok(packet.ty(), packet.data()) && (packet.ty() is MldQuery
                || packet.ty() is MldReport),
            r matches Ok(x) ==> x.parsed_from(
                packet.data().update(0, packet.ty().raw()),
            ),
    {
        match packet.checked_len() {
            Ok(_) => {},
            Err(e) => return Err(e),
        }
        let ghost s = packet.data().update(0, packet.ty().raw());
        proof {
            if packet.ty() is MldQuery {
                assert(s.subrange(8, 24) =~= packet.data().subrange(8, 24));
                assert(s.subrange(28, s.len() as int) =~= packet.data().subrange(28, s.len() as int));
            }
            if packet.ty() is MldReport {
                assert(s.subrange(8, s.len() as int) =~= packet.data().subrange(8, s.len() as int));
            }
        }
        match packet.msg_type() {
            Message::MldQuery => Ok(
                Repr::Query {
                    max_resp_code: packet.max_resp_code(),
                    mcast_addr: packet.mcast_addr(),
                    s_flag: packet.s_flag(),
                    qrv: packet.qrv(),
                    qqic: packet.qqic(),
                    num_srcs: packet.num_srcs(),
                    data: packet.payload(),
                },
            ),
            Message::MldReport => Ok(
                Repr::Report {
                    nr_mcast_addr_rcrds: packet.nr_mcast_addr_rcrds(),
                    data: packet.payload(),
                },
            ),
            _ => Err(Error),
        }
    }

    /// The length of the message this representation is emitted as.
    pub open spec fn buffer_len_spec(self) -> int {
        match self {
            Repr::Query { data, .. } => 28 + data@.len() as int,
            Repr::Report { data, .. } => 8 + data@.len() as int,
            Repr::ReportRecordReprs(records) => 8 + 20 * records@.len() as int,
        }
    }

    /// Return the length of a packet that will be emitted from this
    /// high-level representation.
    pub fn buffer_len(&self) -> (r: usize)
        requires
            self.buffer_len_spec() <= usize::MAX,
        ensures
            r == self.buffer_len_spec(),
    {
        match self {
            Repr::Query { data, .. } => 28 + data.len(),
            Repr::Report { data, .. } => 8 + data.len(),
            Repr::ReportRecordReprs(records) => 8 + records_len(records),
        }
    }

    /// The representation can be emitted into a buffer of `len` octets: a
    /// query or a report whose data fills the buffer after its header, with
    /// a robustness variable below eight; or address records that fit, each
    /// of a multicast address.
    pub open spec fn emittable(self, len: int) -> bool {
        match self {
            Repr::Query { qrv, .. } => len == self.buffer_len_spec() && qrv < 8,
            Repr::Report { .. } => len == self.buffer_len_spec(),
            Repr::ReportRecordReprs(records) => self.buffer_len_spec() <= len && forall|i: int|
                0 <= i < records@.len() ==> (#[trigger] records@[i]).mcast_addr@[0] == 0xff,
        }
    }

    /// `s` with this message emitted over it; the checksum is left as it
    /// was.
    pub open spec fn emit_spec(self, s: Seq<u8>) -> Seq<u8> {
        match self {
            Repr::Query { max_resp_code, mcast_addr, s_flag, qrv, qqic, num_srcs, data } => seq![
                0x82u8,
                0,
                s[2],
                s[3],
                (max_resp_code / 256) as u8,
                (max_resp_code % 256) as u8,
                0,
                0,
            ] + mcast_addr@ + seq![
                ((if s_flag {
                    8int
                } else {
                    0
                }) + qrv) as u8,
                qqic,
                (num_srcs / 256) as u8,
                (num_srcs % 256) as u8,
            ] + data@,
            Repr::Report { nr_mcast_addr_rcrds, data } => seq![
                0x8fu8,
                0,
                s[2],
                s[3],
                0,
                0,
                (nr_mcast_addr_rcrds / 256) as u8,
                (nr_mcast_addr_rcrds % 256) as u8,
            ] + data@,
            Repr::ReportRecordReprs(records) => splice(
                put_be16(
                    put_be16(s.update(0, 0x8fu8).update(1, 0u8), 4, 0),
                    6,
                    (records@.len() % 65536) as u16,
                ),
                8,
                records_octets(records@),
            ),
        }
    }

    /// Emit a high-level representation into an MLDv2 packet; the checksum
    /// is left for the ICMPv6 layer to fill in.
    pub fn emit<T: BytesSliceMut>(&self, packet: &mut Packet<T>)
        requires
            self.emittable(old(packet).data().len() as int),
        ensures
            final(packet).data() == self.emit_spec(old(packet).data()),
            final(packet).ty() == (if self is Query {
                Message::MldQuery
            } else {
                Message::MldReport
            }),
    {
        let ghost s0 = packet.data();
        match self {
            Repr::Query { max_resp_code, mcast_addr, s_flag, qrv, qqic, num_srcs, data } => {
                packet.set_msg_type(Message::MldQuery);
                packet.set_msg_code(0);
                packet.clear_reserved();
                packet.set_max_resp_code(*max_resp_code);
                packet.set_mcast_addr(*mcast_addr);
                if *s_flag {
                    packet.set_s_flag();
                } else {
                    packet.clear_s_flag();
                }
                packet.set_qrv(*qrv);
                packet.set_qqic(*qqic);
                packet.set_num_srcs(*num_srcs);
                let payload = packet.payload_mut();
                crate::buf::copy_suffix_at(payload, 0, data);
                proof {
                    Ipv6Address::lemma_view(*mcast_addr);
                }
                assert(packet.data() =~= self.emit_spec(s0));
            },
            Repr::Report { nr_mcast_addr_rcrds, data } => {
                packet.set_msg_type(Message::MldReport);
                packet.set_msg_code(0);
                packet.clear_reserved();
                packet.set_nr_mcast_addr_rcrds(*nr_mcast_addr_rcrds);
                let payload = packet.payload_mut();
                crate::buf::copy_suffix_at(payload, 0, data);
                assert(packet.data() =~= self.emit_spec(s0));
            },
            Repr::ReportRecordReprs(records) => {
                packet.set_msg_type(Message::MldReport);
                packet.set_msg_code(0);
                packet.clear_reserved();
                packet.set_nr_mcast_addr_rcrds(crate::buf::low16(records.len()));
                let ghost hdr = packet.data();
                let _len = packet.buffer_ref().as_bytes().len();
                let n = records.len();
                let mut i: usize = 0;
                while i < n
                    invariant
                        n == records@.len(),
                        8 + 20 * n <= hdr.len(),
                        hdr.len() <= usize::MAX,
                        i <= n,
                        packet.data().len() == hdr.len(),
                        packet.ty() == Message::MldReport,
                        packet.data() == splice(hdr, 8, records_octets(records@.subrange(0, i as int))),
                        forall|j: int|
                            0 <= j < records@.len() ==> (#[trigger] records@[j]).mcast_addr@[0] == 0xff,
                    decreases n - i,
                {
                    let at = 8 + 20 * i;
                    let mut record = AddressRecord::new_unchecked(
                        vstd::slice::slice_to_vec(crate::buf::sub(packet.buffer_ref().as_bytes(), at, 20)),
                    );
                    records[i].emit(&mut record);
                    let emitted = record.into_inner();
                    let ghost before = packet.data();
                    packet.buffer_mut().copy_in(at, emitted.as_slice());
                    proof {
                        Ipv6Address::lemma_view(records@[i as int].mcast_addr);
                        assert(emitted@ =~= records@[i as int].octets_spec());
                        assert(packet.data() =~= splice(
                            hdr,
                            8,
                            records_octets(records@.subrange(0, i + 1 as int)),
                        ));
                    }
                    i = i + 1;
                }
                assert(records@.subrange(0, n as int) =~= records@);
                assert(packet.data() =~= self.emit_spec(s0));
            },
        }
    }
}

/// The octets of a message describe at most one representation: two
/// representations that both are what parsing `s` gives are the same.
pub proof fn lemma_parsed_from_unique(x: Repr, y: Repr, s: Seq<u8>)
    requires
        x.parsed_from(s),
        y.parsed_from(s),
    ensures
        x == y,
{
    match (x, y) {
        (Repr::Query { data: a, .. }, Repr::Query { data: b, .. }) => {
            assert(a =~= b);
        },
        (Repr::Report { data: a, .. }, Repr::Report { data: b, .. }) => {
            assert(a =~= b);
        },
        _ => {},
    }
}

/// Parsing a query or report that was emitted gives back the
/// representation, when a query's robustness variable is below eight.
pub proof fn lemma_emit_then_parse(r: Repr, s: Seq<u8>)
    requires
        !(r is ReportRecordReprs),
        r.emittable(s.len() as int),
    ensures
        r.parsed_from(r.emit_spec(s)),
        forall|x: Repr| #[trigger] x.parsed_from(r.emit_spec(s)) ==> x == r,
{
    let t = r.emit_spec(s);
    match r {
        Repr::Query { max_resp_code, mcast_addr, s_flag, qrv, qqic, num_srcs, data } => {
            Ipv6Address::lemma_view(mcast_addr);
            assert(t.subrange(8, 24) =~= mcast_addr@);
            assert(t.subrange(28, t.len() as int) =~= data@);
        },
        Repr::Report { nr_mcast_addr_rcrds, data } => {
            assert(t.subrange(8, t.len() as int) =~= data@);
        },
        _ => {},
    }
    assert forall|x: Repr| #[trigger] x.parsed_from(r.emit_spec(s)) implies x == r by {
        lemma_parsed_from_unique(x, r, r.emit_spec(s));
    }
}

/// A report emitted from address records parses back as a report that
/// counts the records and carries their fixed parts one after the other,
/// when the buffer holds just the records and their count fits its field.
pub proof fn lemma_records_emit_then_parse(records: &[AddressRecordRepr], s: Seq<u8>)
    requires
        Repr::ReportRecordReprs(records).emittable(s.len() as int),
        s.len() == Repr::ReportRecordReprs(records).buffer_len_spec(),
        records@.len() < 65536,
    ensures
        ({
            let t = Repr::ReportRecordReprs(records).emit_spec(s);
            &&& t[0] == 0x8f
            &&& t[1] == 0
            &&& be16(t, 6) == records@.len()
            &&& t.subrange(8, t.len() as int) == records_octets(records@)
        }),
{
    let t = Repr::ReportRecordReprs(records).emit_spec(s);
    let u = put_be16(put_be16(s.update(0, 0x8fu8).update(1, 0u8), 4, 0), 6, (records@.len() % 65536) as u16);
    crate::buf::lemma_be16_put(put_be16(s.update(0, 0x8fu8).update(1, 0u8), 4, 0), 6, (records@.len() % 65536) as u16);
    assert(be16(t, 6) == be16(u, 6));
    assert(t.subrange(8, t.len() as int) =~= records_octets(records@));
}

} // verus!
