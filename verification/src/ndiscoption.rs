//! Options carried in Neighbor Discovery messages.

use vstd::prelude::*;
use crate::buf::{be16, be32, put_be16, put_be32, splice, fill, Bytes, BytesMut, BytesSliceMut, Ref};
use crate::buf::{read_u16_at, lemma_put_halves, lemma_be32_halves};
use crate::error::{Error, Result};
use crate::hardware::{RawHardwareAddress, MAX_HARDWARE_ADDRESS_LEN};
use crate::ipv6::{Address as Ipv6Address, Packet as Ipv6Packet, Repr as Ipv6Repr};
use crate::ipv6::len_ok as ipv6_len_ok;
use crate::mld::read_ipv6_addr_at;
use crate::time::Duration;

verus! {

broadcast use vstd::array::group_array_axioms;

/// NDISC Option Type.
#[derive(Debug, Clone, Copy, PartialEq, Eq, PartialOrd, Ord, Hash, Structural)]
pub enum Type {
    /// Source Link-layer Address.
    SourceLinkLayerAddr,
    /// Target Link-layer Address.
    TargetLinkLayerAddr,
    /// Prefix Information.
    PrefixInformation,
    /// Redirected Header.
    RedirectedHeader,
    /// MTU.
    Mtu,
    /// A value with no name of its own.
    Unknown(u8),
}

impl Type {
    /// The Type that a raw value denotes.
    pub open spec fn from_raw(v: u8) -> Type {
        if v == 0x1 {
            Type::SourceLinkLayerAddr
        } else if v == 0x2 {
            Type::TargetLinkLayerAddr
        } else if v == 0x3 {
            Type::PrefixInformation
        } else if v == 0x4 {
            Type::RedirectedHeader
        } else if v == 0x5 {
            Type::Mtu
        } else {
            Type::Unknown(v)
        }
    }

    /// The raw value of a Type.
    pub open spec fn raw(self) -> u8 {
        match self {
            Type::SourceLinkLayerAddr => 0x1,
            Type::TargetLinkLayerAddr => 0x2,
            Type::PrefixInformation => 0x3,
            Type::RedirectedHeader => 0x4,
            Type::Mtu => 0x5,
            Type::Unknown(v) => v,
        }
    }

    /// The code table of the wire format, over every code `v`: each named
    /// value is written as the code assigned to it, that code and no other
    /// reads as it, and a code with no name reads as `Unknown` of itself.
    pub proof fn lemma_codes(v: u8)
        ensures
            Type::SourceLinkLayerAddr.raw() == 0x1,
            Type::TargetLinkLayerAddr.raw() == 0x2,
            Type::PrefixInformation.raw() == 0x3,
            Type::RedirectedHeader.raw() == 0x4,
            Type::Mtu.raw() == 0x5,
            (Type::from_raw(v) == Type::SourceLinkLayerAddr) <==> v == 0x1,
            (Type::from_raw(v) == Type::TargetLinkLayerAddr) <==> v == 0x2,
            (Type::from_raw(v) == Type::PrefixInformation) <==> v == 0x3,
            (Type::from_raw(v) == Type::RedirectedHeader) <==> v == 0x4,
            (Type::from_raw(v) == Type::Mtu) <==> v == 0x5,
            v != 0x1 && v != 0x2 && v != 0x3 && v != 0x4 && v != 0x5 ==> Type::from_raw(v) == Type::Unknown(v),
    {
    }

    /// A value is canonical when it is what its own raw value denotes; only an
    /// `Unknown` that carries a named value is not.
    pub open spec fn is_canonical(self) -> bool {
        Type::from_raw(self.raw()) == self
    }

    /// Reading back the raw value of what a raw value denotes gives that value.
    pub proof fn lemma_raw_from_raw(v: u8)
        ensures
            Type::from_raw(v).raw() == v,
            Type::from_raw(v).is_canonical(),
    {
    }
}

impl From<u8> for Type {
    fn from(v: u8) -> (r: Type) {
        match v {
            0x1 => Type::SourceLinkLayerAddr,
            0x2 => Type::TargetLinkLayerAddr,
            0x3 => Type::PrefixInformation,
            0x4 => Type::RedirectedHeader,
            0x5 => Type::Mtu,
            _ => Type::Unknown(v),
        }
    }
}

impl vstd::std_specs::convert::FromSpecImpl<u8> for Type {
    open spec fn obeys_from_spec() -> bool {
        true
    }

    open spec fn from_spec(v: u8) -> Type {
        Type::from_raw(v)
    }
}

impl From<Type> for u8 {
    fn from(v: Type) -> (r: u8) {
        match v {
            Type::SourceLinkLayerAddr => 0x1,
            Type::TargetLinkLayerAddr => 0x2,
            Type::PrefixInformation => 0x3,
            Type::RedirectedHeader => 0x4,
            Type::Mtu => 0x5,
            Type::Unknown(x) => x,
        }
    }
}

impl vstd::std_specs::convert::FromSpecImpl<Type> for u8 {
    open spec fn obeys_from_spec() -> bool {
        true
    }

    open spec fn from_spec(v: Type) -> u8 {
        v.raw()
    }
}

/// The flags of a Prefix Information option.
#[derive(Debug, Clone, Copy, PartialEq, Eq, PartialOrd, Ord, Hash, Structural)]
pub struct PrefixInfoFlags {
    bits: u8,
}

impl PrefixInfoFlags {
    /// The octet the flags are stored as.
    pub closed spec fn bits_spec(self) -> u8 {
        self.bits
    }

    /// The flags stored as the octet `bits`.
    pub closed spec fn spec_from_bits(bits: u8) -> PrefixInfoFlags {
        PrefixInfoFlags { bits }
    }

    /// Flags are their octet.
    pub proof fn lemma_bits(f: PrefixInfoFlags, bits: u8)
        ensures
            PrefixInfoFlags::spec_from_bits(f.bits_spec()) == f,
            PrefixInfoFlags::spec_from_bits(bits).bits_spec() == bits,
    {
    }

    /// The on-link flag.
    pub fn on_link() -> (r: PrefixInfoFlags)
        ensures
            r.bits_spec() == 0x80,
    {
        PrefixInfoFlags { bits: 0x80 }
    }

    /// The autonomous address-configuration flag.
    pub fn addrconf() -> (r: PrefixInfoFlags)
        ensures
            r.bits_spec() == 0x40,
    {
        PrefixInfoFlags { bits: 0x40 }
    }

    /// The octet the flags are stored as.
    pub fn bits(&self) -> (r: u8)
        ensures
            r == self.bits_spec(),
    {
        self.bits
    }

    /// The flags of an octet, with the bits that name no flag dropped.
    pub fn from_bits_truncate(bits: u8) -> (r: PrefixInfoFlags)
        ensures
            r.bits_spec() == bits / 64 * 64,
    {
        proof {
            assert(bits & 0xc0 == bits / 64 * 64) by (bit_vector);
        }
        PrefixInfoFlags { bits: bits & 0xc0 }
    }

    /// Whether every flag of `other` is set here.
    pub fn contains(&self, other: PrefixInfoFlags) -> (r: bool)
        ensures
            r == (self.bits_spec() & other.bits_spec() == other.bits_spec()),
    {
        self.bits & other.bits == other.bits
    }
}

impl core::ops::BitOr for PrefixInfoFlags {
    type Output = PrefixInfoFlags;

    fn bitor(self, rhs: PrefixInfoFlags) -> (r: PrefixInfoFlags) {
        PrefixInfoFlags { bits: self.bits | rhs.bits }
    }
}

impl vstd::std_specs::ops::BitOrSpecImpl for PrefixInfoFlags {
    open spec fn obeys_bitor_spec() -> bool {
        true
    }

    open spec fn bitor_req(self, rhs: PrefixInfoFlags) -> bool {
        true
    }

    open spec fn bitor_spec(self, rhs: PrefixInfoFlags) -> PrefixInfoFlags {
        PrefixInfoFlags::spec_from_bits(self.bits_spec() | rhs.bits_spec())
    }
}

/// The octets of an option's type-specific data, for a length field of
/// `length` units of eight octets.
#[allow(non_snake_case)]
pub fn DATA(length: u8) -> (r: core::ops::Range<usize>)
    ensures
        r.start == 2,
        r.end == 8 * length,
{
    2..length as usize * 8
}

/// The option's extent in octets, from its length field.
pub open spec fn opt_end(s: Seq<u8>) -> int {
    s[1] * 8
}

/// `n` rounded up to a multiple of eight.
pub open spec fn round8(n: nat) -> nat {
    if n % 8 == 0 {
        n
    } else {
        (n + 8 - n % 8) as nat
    }
}

/// `n` rounded up to a multiple of eight is the least multiple of eight
/// that is at least `n`, and the count of its units of eight.
pub proof fn lemma_round8(n: nat)
    ensures
        n <= round8(n) < n + 8,
        round8(n) % 8 == 0,
        round8(n) / 8 * 8 == round8(n),
{
}

/// The buffer holds the option it describes, and a Prefix Information or
/// Redirected Header option declares room for its fixed fields.
pub open spec fn len_ok(s: Seq<u8>) -> bool {
    &&& s.len() >= 8
    &&& s.len() >= opt_end(s)
    &&& s[0] == 3 ==> opt_end(s) >= 32
    &&& s[0] == 4 ==> opt_end(s) >= 48
}

/// A read/write wrapper around an NDISC Option.
#[derive(Debug, PartialEq, Eq)]
pub struct NdiscOption<T> {
    buffer: T,
}

impl<T> NdiscOption<T> {
    /// The buffer underneath.
    pub closed spec fn inner(&self) -> T {
        self.buffer
    }

    /// Create a raw octet buffer with an NDISC Option structure.
    pub fn new_unchecked(buffer: T) -> (r: NdiscOption<T>)
        ensures
            r.inner() == buffer,
    {
        NdiscOption { buffer }
    }

    /// Consume the option, returning the underlying buffer.
    pub fn into_inner(self) -> (r: T)
        ensures
            r == self.inner(),
    {
        self.buffer
    }
}

impl<T: Bytes> NdiscOption<T> {
    /// The octets of the option.
    pub open spec fn data_spec(&self) -> Seq<u8> {
        self.inner().bytes()
    }

    /// Shorthand for a combination of [`NdiscOption::new_unchecked`] and
    /// [`NdiscOption::check_len`], which also refuses an option whose length
    /// field is zero.
    pub fn new_checked(buffer: T) -> (r: Result<NdiscOption<T>>)
        ensures
            r is Ok <==> len_ok(buffer.bytes()) && buffer.bytes()[1] != 0,
            r matches Ok(o) ==> o.inner() == buffer,
    {
        let opt = Self::new_unchecked(buffer);
        match opt.checked_len() {
            Ok(_) => {},
            Err(e) => return Err(e),
        }
        if opt.data_len() == 0 {
            return Err(Error);
        }
        Ok(opt)
    }

    /// Ensure that no accessor method will panic if called.
    /// Returns `Err(Error)` if the buffer is too short.
    pub fn check_len(&self) -> (r: Result<()>)
        ensures
            r is Ok <==> len_ok(self.data_spec()),
    {
        match self.checked_len() {
            Ok(_) => Ok(()),
            Err(e) => Err(e),
        }
    }

    /// The buffer's length, when it passes [`NdiscOption::check_len`].
    pub(crate) fn checked_len(&self) -> (r: Result<usize>)
        ensures
            r is Ok <==> len_ok(self.data_spec()),
            r matches Ok(n) ==> n == self.data_spec().len(),
    {
        let len = self.buffer.byte_len();
        if len < 8 {
            Err(Error)
        } else {
            let data_end = self.data_len() as usize * 8;
            if len < data_end {
                Err(Error)
            } else {
                match self.option_type() {
                    Type::SourceLinkLayerAddr | Type::TargetLinkLayerAddr | Type::Mtu => Ok(len),
                    Type::PrefixInformation if data_end >= 32 => Ok(len),
                    Type::RedirectedHeader if data_end >= 48 => Ok(len),
                    Type::Unknown(_) => Ok(len),
                    _ => Err(Error),
                }
            }
        }
    }

    /// Return the option type field.
    pub fn option_type(&self) -> (r: Type)
        requires
            self.data_spec().len() >= 1,
        ensures
            r == Type::from_raw(self.data_spec()[0]),
    {
        Type::from(self.buffer.as_bytes()[0])
    }

    /// Return the length field, in units of eight octets.
    pub fn data_len(&self) -> (r: u8)
        requires
            self.data_spec().len() >= 2,
        ensures
            r == self.data_spec()[1],
    {
        self.buffer.as_bytes()[1]
    }

    /// Return the Source/Target Link-layer Address: the octets after the
    /// length field, up to the longest address a medium has.
    pub fn link_layer_addr(&self) -> (r: RawHardwareAddress)
        requires
            self.data_spec().len() >= 2,
            self.data_spec()[1] >= 1,
            opt_end(self.data_spec()) <= self.data_spec().len(),
        ensures
            r == RawHardwareAddress::from_seq(self.data_spec().subrange(2, 2 + lladdr_len(self.data_spec()))),
    {
        let n = self.data_len() as usize * 8 - 2;
        let len = if MAX_HARDWARE_ADDRESS_LEN < n {
            MAX_HARDWARE_ADDRESS_LEN
        } else {
            n
        };
        RawHardwareAddress::from_bytes(crate::buf::sub(self.buffer.as_bytes(), 2, len))
    }

    /// Return the MTU field.
    pub fn mtu(&self) -> (r: u32)
        requires
            self.data_spec().len() >= 8,
        ensures
            r == be32(self.data_spec(), 4),
    {
        read_u32_halves(self.buffer.as_bytes(), 4)
    }

    /// Return the prefix length field.
    pub fn prefix_len(&self) -> (r: u8)
        requires
            self.data_spec().len() >= 3,
        ensures
            r == self.data_spec()[2],
    {
        self.buffer.as_bytes()[2]
    }

    /// Return the prefix information flags, with the bits that name no flag
    /// dropped.
    pub fn prefix_flags(&self) -> (r: PrefixInfoFlags)
        requires
            self.data_spec().len() >= 4,
        ensures
            r.bits_spec() == self.data_spec()[3] / 64 * 64,
    {
        PrefixInfoFlags::from_bits_truncate(self.buffer.as_bytes()[3])
    }

    /// Return the valid lifetime of the prefix.
    pub fn valid_lifetime(&self) -> (r: Duration)
        requires
            self.data_spec().len() >= 8,
        ensures
            r.micros() == be32(self.data_spec(), 4) * 1000000,
    {
        let v = read_u32_halves(self.buffer.as_bytes(), 4);
        Duration::from_secs(v as u64)
    }

    /// Return the preferred lifetime of the prefix.
    pub fn preferred_lifetime(&self) -> (r: Duration)
        requires
            self.data_spec().len() >= 12,
        ensures
            r.micros() == be32(self.data_spec(), 8) * 1000000,
    {
        let v = read_u32_halves(self.buffer.as_bytes(), 8);
        Duration::from_secs(v as u64)
    }

    /// Return the prefix.
    pub fn prefix(&self) -> (r: Ipv6Address)
        requires
            self.data_spec().len() >= 32,
        ensures
            r == Ipv6Address::from_seq(self.data_spec().subrange(16, 32)),
    {
        read_ipv6_addr_at(self.buffer.as_bytes(), 16)
    }
}

/// The length of the link-layer address an option carries: its octets
/// after the length field, but no more than the longest address a medium
/// has.
pub open spec fn lladdr_len(s: Seq<u8>) -> int {
    if 6 < opt_end(s) - 2 {
        6
    } else {
        opt_end(s) - 2
    }
}

/// Read a 32-bit word as its two 16-bit halves, high half first.
fn read_u32_halves(data: &[u8], at: usize) -> (r: u32)
    requires
        at + 4 <= data@.len(),
    ensures
        r == be32(data@, at as int),
{
    let _n = data.len();
    let hi = read_u16_at(data, at) as u32;
    let lo = read_u16_at(data, at + 2) as u32;
    proof {
        lemma_be32_halves(data@, at as int);
        assert((hi << 16) | lo == hi * 65536 + lo) by (bit_vector)
            requires
                hi < 65536,
                lo < 65536,
        ;
    }
    (hi << 16) | lo
}

impl<'a> NdiscOption<Ref<'a>> {
    /// [`NdiscOption::new_checked`] over a [`Ref`].
    pub fn new_checked_ref(buffer: Ref<'a>) -> (r: Result<NdiscOption<Ref<'a>>>)
        ensures
            r is Ok <==> len_ok(buffer.view_bytes()) && buffer.view_bytes()[1] != 0,
            r matches Ok(o) ==> o.inner() == buffer,
    {
        let opt = NdiscOption::new_unchecked(buffer);
        match opt.checked_len() {
            Ok(_) => {},
            Err(e) => return Err(e),
        }
        if opt.data_len() == 0 {
            return Err(Error);
        }
        Ok(opt)
    }

    /// Return the option data after the type and length fields, with the
    /// buffer's lifetime.
    pub fn data(&self) -> (r: &'a [u8])
        requires
            self.data_spec().len() >= 2,
            self.data_spec()[1] >= 1,
            opt_end(self.data_spec()) <= self.data_spec().len(),
        ensures
            r@ == self.data_spec().subrange(2, opt_end(self.data_spec())),
    {
        self.buffer.window(2, self.data_len() as usize * 8)
    }
}

impl<T: BytesMut> NdiscOption<T> {
    /// Set the option type field.
    pub fn set_option_type(&mut self, value: Type)
        requires
            old(self).data_spec().len() >= 1,
        ensures
            final(self).data_spec() == old(self).data_spec().update(0, value.raw()),
    {
        self.buffer.set_byte(0, value.into());
    }

    /// Set the length field, in units of eight octets.
    pub fn set_data_len(&mut self, value: u8)
        requires
            old(self).data_spec().len() >= 2,
        ensures
            final(self).data_spec() == old(self).data_spec().update(1, value),
    {
        self.buffer.set_byte(1, value);
    }

    /// Set the Source/Target Link-layer Address.
    pub fn set_link_layer_addr(&mut self, addr: RawHardwareAddress)
        requires
            2 + addr@.len() <= old(self).data_spec().len(),
        ensures
            final(self).data_spec() == splice(old(self).data_spec(), 2, addr@),
    {
        self.buffer.copy_in(2, addr.as_bytes());
    }

    /// Set the MTU field.
    pub fn set_mtu(&mut self, value: u32)
        requires
            old(self).data_spec().len() >= 8,
        ensures
            final(self).data_spec() == put_be32(old(self).data_spec(), 4, value),
    {
        write_u32_halves(&mut self.buffer, 4, value);
    }

    /// Set the prefix length field.
    pub fn set_prefix_len(&mut self, value: u8)
        requires
            old(self).data_spec().len() >= 3,
        ensures
            final(self).data_spec() == old(self).data_spec().update(2, value),
    {
        self.buffer.set_byte(2, value);
    }

    /// Set the prefix information flags.
    pub fn set_prefix_flags(&mut self, flags: PrefixInfoFlags)
        requires
            old(self).data_spec().len() >= 4,
        ensures
            final(self).data_spec() == old(self).data_spec().update(3, flags.bits_spec()),
    {
        self.buffer.set_byte(3, flags.bits());
    }

    /// Set the valid lifetime of the prefix, in whole seconds, of which the
    /// field keeps the low 32 bits.
    pub fn set_valid_lifetime(&mut self, time: Duration)
        requires
            old(self).data_spec().len() >= 8,
        ensures
            final(self).data_spec() == put_be32(old(self).data_spec(), 4, secs32(time)),
    {
        let v = secs_low32(&time);
        write_u32_halves(&mut self.buffer, 4, v);
    }

    /// Set the preferred lifetime of the prefix, in whole seconds, of which
    /// the field keeps the low 32 bits.
    pub fn set_preferred_lifetime(&mut self, time: Duration)
        requires
            old(self).data_spec().len() >= 12,
        ensures
            final(self).data_spec() == put_be32(old(self).data_spec(), 8, secs32(time)),
    {
        let v = secs_low32(&time);
        write_u32_halves(&mut self.buffer, 8, v);
    }

    /// Clear the reserved bits of a Prefix Information option.
    pub fn clear_prefix_reserved(&mut self)
        requires
            old(self).data_spec().len() >= 16,
        ensures
            final(self).data_spec() == put_be16(put_be16(old(self).data_spec(), 12, 0), 14, 0),
    {
        self.buffer.set_u16(12, 0);
        self.buffer.set_u16(14, 0);
    }

    /// Set the prefix.
    pub fn set_prefix(&mut self, addr: Ipv6Address)
        requires
            old(self).data_spec().len() >= 32,
        ensures
            final(self).data_spec() == splice(old(self).data_spec(), 16, addr@),
    {
        proof {
            Ipv6Address::lemma_view(addr);
        }
        self.buffer.copy_in(16, addr.as_bytes());
    }

    /// Clear the reserved bits of a Redirected Header option.
    pub fn clear_redirected_reserved(&mut self)
        requires
            old(self).data_spec().len() >= 8,
        ensures
            final(self).data_spec() == put_be16(
                put_be16(put_be16(old(self).data_spec(), 2, 0), 4, 0),
                6,
                0,
            ),
    {
        self.buffer.set_u16(2, 0);
        self.buffer.set_u16(4, 0);
        self.buffer.set_u16(6, 0);
    }
}

/// The whole seconds of a duration, keeping their low 32 bits.
pub open spec fn secs32(time: Duration) -> u32 {
    (time.micros() / 1000000) as u32
}

/// The whole seconds of a duration, keeping their low 32 bits.
fn secs_low32(time: &Duration) -> (r: u32)
    ensures
        r == secs32(*time),
{
    time.secs() as u32
}

/// Write a 32-bit word as its two 16-bit halves, high half first.
fn write_u32_halves<B: BytesMut>(buffer: &mut B, at: usize, v: u32)
    requires
        at + 4 <= (*old(buffer)).bytes().len(),
    ensures
        (*final(buffer)).bytes() == put_be32((*old(buffer)).bytes(), at as int, v),
{
    proof {
        assert(v >> 16 == v / 65536 && v / 65536 < 65536) by (bit_vector);
        lemma_put_halves((*old(buffer)).bytes(), at as int, v);
    }
    let _n = buffer.byte_len();
    buffer.set_u16(at, (v >> 16) as u16);
    buffer.set_u16(at + 2, (v % 65536) as u16);
}

impl<T: BytesSliceMut> NdiscOption<T> {
    /// Return a mutable pointer to the option data after the type and length
    /// fields.
    pub fn data_mut(&mut self) -> (r: &mut [u8])
        requires
            old(self).data_spec().len() >= 2,
            old(self).data_spec()[1] >= 1,
            opt_end(old(self).data_spec()) <= old(self).data_spec().len(),
        ensures
            r@ == old(self).data_spec().subrange(2, opt_end(old(self).data_spec())),
            final(self).data_spec() == old(self).data_spec().subrange(0, 2) + final(r)@ + old(
                self,
            ).data_spec().subrange(opt_end(old(self).data_spec()), old(self).data_spec().len() as int),
    {
        let len = self.data_len() as usize;
        let data = self.buffer.as_bytes_mut();
        let (head, _rest) = data.split_at_mut(len * 8);
        let (_fixed, payload) = head.split_at_mut(2);
        payload
    }
}

/// The information a Prefix Information option carries.
#[derive(Debug, PartialEq, Eq, Clone, Copy)]
pub struct PrefixInformation {
    pub prefix_len: u8,
    pub flags: PrefixInfoFlags,
    pub valid_lifetime: Duration,
    pub preferred_lifetime: Duration,
    pub prefix: Ipv6Address,
}

impl PrefixInformation {
    /// Whether the prefix is one to configure an address from: the
    /// autonomous address-configuration flag is set, the prefix is not
    /// link-local, and its preferred lifetime is no longer than its valid
    /// lifetime.
    pub fn is_valid_prefix_info(&self) -> (r: bool)
        ensures
            r == ((self.flags.bits_spec() & 0x40 == 0x40) && !(self.prefix@[0] == 0xfe
                && self.prefix@[1] / 64 == 2) && self.preferred_lifetime.micros()
                <= self.valid_lifetime.micros()),
    {
        self.flags.contains(PrefixInfoFlags::addrconf()) && !self.prefix.is_link_local()
            && self.preferred_lifetime.total_micros() <= self.valid_lifetime.total_micros()
    }
}

/// The header and leading octets of the packet a Redirect message refers to.
#[derive(Debug, PartialEq, Eq, Clone, Copy)]
pub struct RedirectedHeader<'a> {
    pub header: Ipv6Repr,
    pub data: &'a [u8],
}

/// A high-level representation of an NDISC Option.
#[derive(Debug, PartialEq, Eq, Clone, Copy)]
pub enum Repr<'a> {
    SourceLinkLayerAddr(RawHardwareAddress),
    TargetLinkLayerAddr(RawHardwareAddress),
    PrefixInformation(PrefixInformation),
    RedirectedHeader(RedirectedHeader<'a>),
    Mtu(u32),
    Unknown { type_: u8, length: u8, data: &'a [u8] },
}

/// The packet a Redirected Header option carries: the octets after its
/// reserved fields, to the end of the option.
pub open spec fn redirected_octets(s: Seq<u8>) -> Seq<u8> {
    s.subrange(8, opt_end(s))
}

/// Parsing the option in `s` succeeds.
pub open spec fn parse_ok(s: Seq<u8>) -> bool {
    &&& len_ok(s)
    &&& s[0] == 1 || s[0] == 2 ==> s[1] >= 1
    &&& s[0] == 3 ==> s[1] == 4
    &&& s[0] == 4 ==> s[1] >= 6 && Ipv6Repr::parse_spec(redirected_octets(s)) is Ok
    &&& s[0] == 5 ==> s[1] == 1
    &&& (s[0] == 0 || s[0] > 5) ==> s[1] != 0
}

impl<'a> Repr<'a> {
    /// This representation is what parsing the option in `s` gives, when
    /// parsing succeeds.
    pub open spec fn parsed_from(self, s: Seq<u8>) -> bool {
        match self {
            Repr::SourceLinkLayerAddr(addr) => s[0] == 1 && addr == RawHardwareAddress::from_seq(
                s.subrange(2, 2 + lladdr_len(s)),
            ),
            Repr::TargetLinkLayerAddr(addr) => s[0] == 2 && addr == RawHardwareAddress::from_seq(
                s.subrange(2, 2 + lladdr_len(s)),
            ),
            Repr::PrefixInformation(info) => s[0] == 3 && info.prefix_len == s[2]
                && info.flags.bits_spec() == s[3] / 64 * 64 && info.valid_lifetime.micros()
                == be32(s, 4) * 1000000 && info.preferred_lifetime.micros() == be32(s, 8)
                * 1000000 && info.prefix == Ipv6Address::from_seq(s.subrange(16, 32)),
            Repr::RedirectedHeader(rh) => s[0] == 4 && Ipv6Repr::parse_spec(redirected_octets(s))
                == Ok::<Ipv6Repr, Error>(rh.header) && rh.data@ == redirected_octets(s).subrange(
                40,
                40 + rh.header.payload_len,
            ),
            Repr::Mtu(mtu) => s[0] == 5 && mtu == be32(s, 4),
            Repr::Unknown { type_, length, data } => (s[0] == 0 || s[0] > 5) && type_ == s[0]
                && length == s[1] && data@ == s.subrange(2, opt_end(s)),
        }
    }

    /// Parse an NDISC Option and return a high-level representation.
    pub fn parse(opt: &NdiscOption<Ref<'a>>) -> (r: Result<Repr<'a>>)
        ensures
            r is Ok <==> parse_ok(opt.data_spec()),
            r matches Ok(x) ==> x.parsed_from(opt.data_spec()),
    {
        match opt.checked_len() {
            Ok(_) => {},
            Err(e) => return Err(e),
        }
        match opt.option_type() {
            Type::SourceLinkLayerAddr => {
                if opt.data_len() >= 1 {
                    Ok(Repr::SourceLinkLayerAddr(opt.link_layer_addr()))
                } else {
                    Err(Error)
                }
            },
            Type::TargetLinkLayerAddr => {
                if opt.data_len() >= 1 {
                    Ok(Repr::TargetLinkLayerAddr(opt.link_layer_addr()))
                } else {
                    Err(Error)
                }
            },
            Type::PrefixInformation => {
                if opt.data_len() == 4 {
                    Ok(
                        Repr::PrefixInformation(
                            PrefixInformation {
                                prefix_len: opt.prefix_len(),
                                flags: opt.prefix_flags(),
                                valid_lifetime: opt.valid_lifetime(),
                                preferred_lifetime: opt.preferred_lifetime(),
                                prefix: opt.prefix(),
                            },
                        ),
                    )
                } else {
                    Err(Error)
                }
            },
            Type::RedirectedHeader => {
                if opt.data_len() < 6 {
                    Err(Error)
                } else {
                    let redirected_packet = crate::buf::tail(opt.data(), 6);
                    proof {
                        assert(redirected_packet@ =~= redirected_octets(opt.data_spec()));
                    }
                    let ip_packet = match Ipv6Packet::new_checked(redirected_packet) {
                        Ok(p) => p,
                        Err(e) => return Err(e),
                    };
                    let ip_repr = match Ipv6Repr::parse(&ip_packet) {
                        Ok(r) => r,
                        Err(e) => return Err(e),
                    };
                    let payload = crate::buf::tail(redirected_packet, 40);
                    let payload_len = ip_repr.payload_len;
                    if payload_len > payload.len() {
                        return Err(Error);
                    }
                    let data = crate::buf::prefix(payload, payload_len);
                    proof {
                        assert(data@ =~= redirected_octets(opt.data_spec()).subrange(
                            40,
                            40 + payload_len,
                        ));
                    }
                    Ok(Repr::RedirectedHeader(RedirectedHeader { header: ip_repr, data }))
                }
            },
            Type::Mtu => {
                if opt.data_len() == 1 {
                    Ok(Repr::Mtu(opt.mtu()))
                } else {
                    Err(Error)
                }
            },
            Type::Unknown(id) => {
                if opt.data_len() != 0 {
                    Ok(Repr::Unknown { type_: id, length: opt.data_len(), data: opt.data() })
                } else {
                    Err(Error)
                }
            },
        }
    }

    /// The length of the option this representation is emitted as.
    pub open spec fn buffer_len_spec(self) -> int {
        match self {
            Repr::SourceLinkLayerAddr(addr) => round8(2 + addr@.len()) as int,
            Repr::TargetLinkLayerAddr(addr) => round8(2 + addr@.len()) as int,
            Repr::PrefixInformation(_) => 32,
            Repr::RedirectedHeader(rh) => round8(48 + rh.data@.len()) as int,
            Repr::Mtu(_) => 8,
            Repr::Unknown { length, .. } => length * 8,
        }
    }

    /// Return the length of a header that will be emitted from this
    /// high-level representation.
    pub fn buffer_len(&self) -> (r: usize)
        requires
            self.buffer_len_spec() <= usize::MAX,
        ensures
            r == self.buffer_len_spec(),
    {
        match self {
            Repr::SourceLinkLayerAddr(addr) | Repr::TargetLinkLayerAddr(addr) => {
                let len = 2 + addr.len();
                if len % 8 == 0 {
                    len
                } else {
                    len + 8 - len % 8
                }
            },
            Repr::PrefixInformation(_) => 32,
            Repr::RedirectedHeader(RedirectedHeader { data, .. }) => {
                let len = 8 + 40 + data.len();
                if len % 8 == 0 {
                    len
                } else {
                    len + 8 - len % 8
                }
            },
            Repr::Mtu(_) => 8,
            Repr::Unknown { length, .. } => *length as usize * 8,
        }
    }

    /// The representation can be emitted into a buffer of `len` octets: it
    /// fits, an unknown option's data fills the length it declares, and a
    /// redirected packet's octets, rounded up to whole units of eight, are
    /// few enough for the option's length field to count.
    pub open spec fn emittable(self, len: int) -> bool {
        &&& self.buffer_len_spec() <= len
        &&& self matches Repr::Unknown { length, data, .. } ==> length >= 1 && data@.len() == length * 8 - 2
        &&& self matches Repr::RedirectedHeader(rh) ==> 48 + rh.data@.len() <= 255 * 8
    }

    /// `s` with this option emitted over it.
    pub open spec fn emit_spec(self, s: Seq<u8>) -> Seq<u8> {
        match self {
            Repr::SourceLinkLayerAddr(addr) => splice(
                s.update(0, 1u8).update(1, (round8(2 + addr@.len()) / 8) as u8),
                2,
                addr@,
            ),
            Repr::TargetLinkLayerAddr(addr) => splice(
                s.update(0, 2u8).update(1, (round8(2 + addr@.len()) / 8) as u8),
                2,
                addr@,
            ),
            Repr::PrefixInformation(info) => splice(
                put_be32(
                    put_be32(
                        put_be16(put_be16(s, 12, 0), 14, 0).update(0, 3u8).update(1, 4u8).update(
                            2,
                            info.prefix_len,
                        ).update(3, info.flags.bits_spec()),
                        4,
                        secs32(info.valid_lifetime),
                    ),
                    8,
                    secs32(info.preferred_lifetime),
                ),
                16,
                info.prefix@,
            ),
            Repr::RedirectedHeader(rh) => splice(
                put_be16(put_be16(put_be16(s, 2, 0), 4, 0), 6, 0).update(0, 4u8).update(
                    1,
                    (round8(48 + rh.data@.len()) / 8) as u8,
                ),
                8,
                rh.header.header_spec() + rh.data@,
            ),
            Repr::Mtu(mtu) => put_be32(s.update(0, 5u8).update(1, 1u8), 4, mtu),
            Repr::Unknown { type_, length, data } => splice(
                s.update(0, type_).update(1, length),
                2,
                data@,
            ),
        }
    }

    /// Emit a high-level representation into an NDISC Option.
    pub fn emit<T: BytesSliceMut>(&self, opt: &mut NdiscOption<T>)
        requires
            self.emittable(old(opt).data_spec().len() as int),
        ensures
            final(opt).data_spec() == self.emit_spec(old(opt).data_spec()),
    {
        let ghost s0 = opt.data_spec();
        match *self {
            Repr::SourceLinkLayerAddr(addr) => {
                emit_link_layer_addr(opt, Type::SourceLinkLayerAddr, addr);
            },
            Repr::TargetLinkLayerAddr(addr) => {
                emit_link_layer_addr(opt, Type::TargetLinkLayerAddr, addr);
            },
            Repr::PrefixInformation(
                PrefixInformation { prefix_len, flags, valid_lifetime, preferred_lifetime, prefix },
            ) => {
                opt.clear_prefix_reserved();
                opt.set_option_type(Type::PrefixInformation);
                opt.set_data_len(4);
                opt.set_prefix_len(prefix_len);
                opt.set_prefix_flags(flags);
                opt.set_valid_lifetime(valid_lifetime);
                opt.set_preferred_lifetime(preferred_lifetime);
                opt.set_prefix(prefix);
            },
            Repr::RedirectedHeader(RedirectedHeader { header, data }) => {
                emit_redirected_header(opt, header, data);
            },
            Repr::Mtu(mtu) => {
                opt.set_option_type(Type::Mtu);
                opt.set_data_len(1);
                opt.set_mtu(mtu);
            },
            Repr::Unknown { type_: id, length, data } => {
                emit_unknown(opt, id, length, data);
            },
        }
    }
}

/// Emit a Source/Target Link-layer Address option.
fn emit_link_layer_addr<T: BytesSliceMut>(opt: &mut NdiscOption<T>, ty: Type, addr: RawHardwareAddress)
    requires
        round8(2 + addr@.len()) <= old(opt).data_spec().len(),
    ensures
        final(opt).data_spec() == splice(
            old(opt).data_spec().update(0, ty.raw()).update(1, (round8(2 + addr@.len()) / 8) as u8),
            2,
            addr@,
        ),
{
    opt.set_option_type(ty);
    let opt_len = addr.len() + 2;
    let units = if opt_len % 8 == 0 {
        opt_len / 8
    } else {
        opt_len / 8 + 1
    };
    opt.set_data_len(units as u8);
    opt.set_link_layer_addr(addr);
}

/// Emit an option of an unrecognised type, whose data fills the length it
/// declares.
fn emit_unknown<T: BytesSliceMut>(opt: &mut NdiscOption<T>, id: u8, length: u8, data: &[u8])
    requires
        length >= 1,
        length * 8 <= old(opt).data_spec().len(),
        data@.len() == length * 8 - 2,
    ensures
        final(opt).data_spec() == splice(old(opt).data_spec().update(0, id).update(1, length), 2, data@),
{
    let ghost s0 = opt.data_spec();
    opt.set_option_type(Type::Unknown(id));
    opt.set_data_len(length);
    let window = opt.data_mut();
    crate::buf::copy_suffix_at(window, 0, data);
    assert(opt.data_spec() =~= splice(s0.update(0, id).update(1, length), 2, data@));
}

/// Emit a Redirected Header option: its length counts the redirected octets
/// rounded up to whole units of eight, and the octets that round up to the
/// next unit are left as they were.
fn emit_redirected_header<T: BytesSliceMut>(opt: &mut NdiscOption<T>, header: Ipv6Repr, data: &[u8])
    requires
        round8(48 + data@.len()) <= old(opt).data_spec().len(),
        48 + data@.len() <= 255 * 8,
    ensures
        final(opt).data_spec() == splice(
            put_be16(put_be16(put_be16(old(opt).data_spec(), 2, 0), 4, 0), 6, 0).update(0, 4u8).update(
                1,
                (round8(48 + data@.len()) / 8) as u8,
            ),
            8,
            header.header_spec() + data@,
        ),
{
    let ghost s0 = opt.data_spec();
    opt.clear_redirected_reserved();
    opt.set_option_type(Type::RedirectedHeader);
    let total = 8 + header.buffer_len() + data.len();
    let units = if total % 8 == 0 {
        total / 8
    } else {
        total / 8 + 1
    };
    opt.set_data_len(units as u8);
    let ghost s1 = opt.data_spec();
    let window = opt.data_mut();
    let mut ip_packet = Ipv6Packet::new_unchecked(vstd::slice::slice_to_vec(crate::buf::tail(window, 6)));
    header.emit(&mut ip_packet);
    let ip_payload = ip_packet.payload_mut();
    crate::buf::copy_window_at(ip_payload, 0, data.len(), data);
    let emitted = ip_packet.into_inner();
    crate::buf::copy_suffix_at(window, 6, emitted.as_slice());
    proof {
        crate::ipv6::Address::lemma_view(header.src_addr);
        crate::ipv6::Address::lemma_view(header.dst_addr);
    }
    assert(opt.data_spec() =~= splice(s1, 8, header.header_spec() + data@));
}

/// The octets of an option describe at most one representation: two
/// representations that both are what parsing `s` gives are the same.
pub proof fn lemma_parsed_from_unique(x: Repr, y: Repr, s: Seq<u8>)
    requires
        x.parsed_from(s),
        y.parsed_from(s),
    ensures
        x == y,
{
    match (x, y) {
        (Repr::PrefixInformation(a), Repr::PrefixInformation(b)) => {
            PrefixInfoFlags::lemma_bits(a.flags, 0);
            PrefixInfoFlags::lemma_bits(b.flags, 0);
            Duration::lemma_micros(a.valid_lifetime);
            Duration::lemma_micros(b.valid_lifetime);
            Duration::lemma_micros(a.preferred_lifetime);
            Duration::lemma_micros(b.preferred_lifetime);
        },
        (Repr::RedirectedHeader(a), Repr::RedirectedHeader(b)) => {
            assert(a.data =~= b.data);
        },
        (Repr::Unknown { data: a, .. }, Repr::Unknown { data: b, .. }) => {
            assert(a =~= b);
        },
        _ => {},
    }
}

/// An option parses back from what it emits when what it carries is what
/// parsing reads back: a link-layer address of six octets; prefix flags with
/// no unnamed bit and lifetimes of whole seconds that fit their fields; a
/// redirected packet whose header counts the octets after it and names a
/// canonical next header; and an unknown option of a type no other
/// representation has.
pub open spec fn emit_parses_back(r: Repr) -> bool {
    match r {
        Repr::SourceLinkLayerAddr(addr) => addr.wf() && addr@.len() == 6,
        Repr::TargetLinkLayerAddr(addr) => addr.wf() && addr@.len() == 6,
        Repr::PrefixInformation(info) => info.flags.bits_spec() / 64 * 64 == info.flags.bits_spec()
            && info.valid_lifetime.micros() == secs32(info.valid_lifetime) * 1000000
            && info.preferred_lifetime.micros() == secs32(info.preferred_lifetime) * 1000000,
        Repr::RedirectedHeader(rh) => rh.header.payload_len == rh.data@.len()
            && rh.header.next_header.is_canonical(),
        Repr::Mtu(_) => true,
        Repr::Unknown { type_, .. } => type_ == 0 || type_ > 5,
    }
}

/// Parsing the option that was emitted gives back the representation.
pub proof fn lemma_emit_then_parse(r: Repr, s: Seq<u8>)
    requires
        r.emittable(s.len() as int),
        emit_parses_back(r),
    ensures
        parse_ok(r.emit_spec(s)),
        r.parsed_from(r.emit_spec(s)),
        forall|x: Repr| #[trigger] x.parsed_from(r.emit_spec(s)) ==> x == r,
{
    let t = r.emit_spec(s);
    match r {
        Repr::SourceLinkLayerAddr(addr) => {
            RawHardwareAddress::lemma_full(addr);
            assert(t.subrange(2, 8) =~= addr@);
        },
        Repr::TargetLinkLayerAddr(addr) => {
            RawHardwareAddress::lemma_full(addr);
            assert(t.subrange(2, 8) =~= addr@);
        },
        Repr::PrefixInformation(info) => {
            Ipv6Address::lemma_view(info.prefix);
            assert(t.subrange(16, 32) =~= info.prefix@);
            PrefixInfoFlags::lemma_bits(info.flags, 0);
            let u = put_be16(put_be16(s, 12, 0), 14, 0).update(0, 3u8).update(1, 4u8).update(
                2,
                info.prefix_len,
            ).update(3, info.flags.bits_spec());
            let v1 = put_be32(u, 4, secs32(info.valid_lifetime));
            crate::buf::lemma_be32_put(u, 4, secs32(info.valid_lifetime));
            crate::buf::lemma_be32_put(v1, 8, secs32(info.preferred_lifetime));
            assert(be32(t, 4) == be32(v1, 4));
        },
        Repr::RedirectedHeader(rh) => {
            let n = (48 + rh.data@.len()) as nat;
            lemma_round8(n);
            assert(opt_end(t) == round8(n));
            let w = redirected_octets(t);
            Ipv6Address::lemma_view(rh.header.src_addr);
            Ipv6Address::lemma_view(rh.header.dst_addr);
            assert(w.subrange(0, 40) =~= rh.header.header_spec());
            assert(splice(w, 0, rh.header.header_spec()) =~= w);
            crate::ipv6::lemma_emit_then_parse(rh.header, w);
            assert(w.subrange(40, 40 + rh.header.payload_len) =~= rh.data@);
        },
        Repr::Mtu(mtu) => {
            crate::buf::lemma_be32_put(s.update(0, 5u8).update(1, 1u8), 4, mtu);
        },
        Repr::Unknown { type_, length, data } => {
            assert(t.subrange(2, opt_end(t)) =~= data@);
        },
    }
    assert forall|x: Repr| #[trigger] x.parsed_from(r.emit_spec(s)) implies x == r by {
        lemma_parsed_from_unique(x, r, r.emit_spec(s));
    }
}

} // verus!
