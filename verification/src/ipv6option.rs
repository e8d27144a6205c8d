//! Options carried in IPv6 hop-by-hop and destination options headers.

use vstd::prelude::*;
use crate::buf::{be16, put_be16, splice, fill, Bytes, BytesMut, BytesSliceMut, Ref, read_u16_at};
use crate::error::{Error, Result};

verus! {

/// IPv6 Extension Header Option Type.
#[derive(Debug, Clone, Copy, PartialEq, Eq, PartialOrd, Ord, Hash, Structural)]
pub enum Type {
    /// 1 byte of padding.
    Pad1,
    /// Multiple bytes of padding.
    PadN,
    /// Router Alert.
    RouterAlert,
    /// RPL Option.
    Rpl,
    /// A value with no name of its own.
    Unknown(u8),
}

impl Type {
    /// The Type that a raw value denotes.
    pub open spec fn from_raw(v: u8) -> Type {
        if v == 0 {
            Type::Pad1
        } else if v == 1 {
            Type::PadN
        } else if v == 5 {
            Type::RouterAlert
        } else if v == 0x63 {
            Type::Rpl
        } else {
            Type::Unknown(v)
        }
    }

    /// The raw value of a Type.
    pub open spec fn raw(self) -> u8 {
        match self {
            Type::Pad1 => 0,
            Type::PadN => 1,
            Type::RouterAlert => 5,
            Type::Rpl => 0x63,
            Type::Unknown(v) => v,
        }
    }

    /// The code table of the wire format, over every code `v`: each named
    /// value is written as the code assigned to it, that code and no other
    /// reads as it, and a code with no name reads as `Unknown` of itself.
    pub proof fn lemma_codes(v: u8)
        ensures
            Type::Pad1.raw() == 0,
            Type::PadN.raw() == 1,
            Type::RouterAlert.raw() == 5,
            Type::Rpl.raw() == 0x63,
            (Type::from_raw(v) == Type::Pad1) <==> v == 0,
            (Type::from_raw(v) == Type::PadN) <==> v == 1,
            (Type::from_raw(v) == Type::RouterAlert) <==> v == 5,
            (Type::from_raw(v) == Type::Rpl) <==> v == 0x63,
            v != 0 && v != 1 && v != 5 && v != 0x63 ==> Type::from_raw(v) == Type::Unknown(v),
    {
    }

    /// A value is canonical when it is what its own raw value denotes; only an
    /// `Unknown` that carries a named value is not.
    pub open spec fn is_canonical(self) -> bool {
        Type::from_raw(self.raw()) == self
    }

    /// Reading back the raw value of what a raw value denotes gives that value.
    pub proof fn lemma_raw_from_raw(v: u8)
        ensures
            Type::from_raw(v).raw() == v,
            Type::from_raw(v).is_canonical(),
    {
    }
}

impl From<u8> for Type {
    fn from(v: u8) -> (r: Type) {
        match v {
            0 => Type::Pad1,
            1 => Type::PadN,
            5 => Type::RouterAlert,
            0x63 => Type::Rpl,
            _ => Type::Unknown(v),
        }
    }
}

impl vstd::std_specs::convert::FromSpecImpl<u8> for Type {
    open spec fn obeys_from_spec() -> bool {
        true
    }

    open spec fn from_spec(v: u8) -> Type {
        Type::from_raw(v)
    }
}

impl From<Type> for u8 {
    fn from(v: Type) -> (r: u8) {
        match v {
            Type::Pad1 => 0,
            Type::PadN => 1,
            Type::RouterAlert => 5,
            Type::Rpl => 0x63,
            Type::Unknown(x) => x,
        }
    }
}

impl vstd::std_specs::convert::FromSpecImpl<Type> for u8 {
    open spec fn obeys_from_spec() -> bool {
        true
    }

    open spec fn from_spec(v: Type) -> u8 {
        v.raw()
    }
}

/// A value of the Router Alert option.
#[derive(Debug, Clone, Copy, PartialEq, Eq, PartialOrd, Ord, Hash, Structural)]
pub enum RouterAlert {
    /// Datagram contains a Multicast Listener Discovery message.
    MulticastListenerDiscovery,
    /// Datagram contains RSVP message.
    Rsvp,
    /// Datagram contains an Active Networks message.
    ActiveNetworks,
    /// A value with no name of its own.
    Unknown(u16),
}

impl RouterAlert {
    /// The RouterAlert that a raw value denotes.
    pub open spec fn from_raw(v: u16) -> RouterAlert {
        if v == 0 {
            RouterAlert::MulticastListenerDiscovery
        } else if v == 1 {
            RouterAlert::Rsvp
        } else if v == 2 {
            RouterAlert::ActiveNetworks
        } else {
            RouterAlert::Unknown(v)
        }
    }

    /// The raw value of a RouterAlert.
    pub open spec fn raw(self) -> u16 {
        match self {
            RouterAlert::MulticastListenerDiscovery => 0,
            RouterAlert::Rsvp => 1,
            RouterAlert::ActiveNetworks => 2,
            RouterAlert::Unknown(v) => v,
        }
    }

    /// The code table of the wire format, over every code `v`: each named
    /// value is written as the code assigned to it, that code and no other
    /// reads as it, and a code with no name reads as `Unknown` of itself.
    pub proof fn lemma_codes(v: u16)
        ensures
            RouterAlert::MulticastListenerDiscovery.raw() == 0,
            RouterAlert::Rsvp.raw() == 1,
            RouterAlert::ActiveNetworks.raw() == 2,
            (RouterAlert::from_raw(v) == RouterAlert::MulticastListenerDiscovery) <==> v == 0,
            (RouterAlert::from_raw(v) == RouterAlert::Rsvp) <==> v == 1,
            (RouterAlert::from_raw(v) == RouterAlert::ActiveNetworks) <==> v == 2,
            v != 0 && v != 1 && v != 2 ==> RouterAlert::from_raw(v) == RouterAlert::Unknown(v),
    {
    }

    /// A value is canonical when it is what its own raw value denotes; only an
    /// `Unknown` that carries a named value is not.
    pub open spec fn is_canonical(self) -> bool {
        RouterAlert::from_raw(self.raw()) == self
    }

    /// Reading back the raw value of what a raw value denotes gives that value.
    pub proof fn lemma_raw_from_raw(v: u16)
        ensures
            RouterAlert::from_raw(v).raw() == v,
            RouterAlert::from_raw(v).is_canonical(),
    {
    }
}

impl From<u16> for RouterAlert {
    fn from(v: u16) -> (r: RouterAlert) {
        match v {
            0 => RouterAlert::MulticastListenerDiscovery,
            1 => RouterAlert::Rsvp,
            2 => RouterAlert::ActiveNetworks,
            _ => RouterAlert::Unknown(v),
        }
    }
}

impl vstd::std_specs::convert::FromSpecImpl<u16> for RouterAlert {
    open spec fn obeys_from_spec() -> bool {
        true
    }

    open spec fn from_spec(v: u16) -> RouterAlert {
        RouterAlert::from_raw(v)
    }
}

impl From<RouterAlert> for u16 {
    fn from(v: RouterAlert) -> (r: u16) {
        match v {
            RouterAlert::MulticastListenerDiscovery => 0,
            RouterAlert::Rsvp => 1,
            RouterAlert::ActiveNetworks => 2,
            RouterAlert::Unknown(x) => x,
        }
    }
}

impl vstd::std_specs::convert::FromSpecImpl<RouterAlert> for u16 {
    open spec fn obeys_from_spec() -> bool {
        true
    }

    open spec fn from_spec(v: RouterAlert) -> u16 {
        v.raw()
    }
}

impl RouterAlert {
    /// The length of the data of a Router Alert option.
    pub const DATA_LEN: u8 = 2;
}

/// The action an IPv6 node takes on an option it does not recognize; the top
/// two bits of the option type say which.
#[derive(Debug, PartialEq, Eq, PartialOrd, Ord, Clone, Copy, Hash)]
pub enum FailureType {
    /// Skip this option and continue processing the header.
    Skip,
    /// Discard the containing packet.
    Discard,
    /// Discard the containing packet and notify the sender.
    DiscardSendAll,
    /// Discard the containing packet and only notify the sender if the
    /// sender is a unicast address.
    DiscardSendUnicast,
}

impl FailureType {
    /// The action the top two bits of an option type name.
    pub open spec fn from_bits(v: u8) -> FailureType {
        if v / 64 == 0 {
            FailureType::Skip
        } else if v / 64 == 1 {
            FailureType::Discard
        } else if v / 64 == 2 {
            FailureType::DiscardSendAll
        } else {
            FailureType::DiscardSendUnicast
        }
    }

    /// The octet with this action in its top two bits and zero below.
    pub open spec fn bits(self) -> u8 {
        match self {
            FailureType::Skip => 0,
            FailureType::Discard => 0x40,
            FailureType::DiscardSendAll => 0x80,
            FailureType::DiscardSendUnicast => 0xc0,
        }
    }
}

impl From<u8> for FailureType {
    fn from(value: u8) -> (r: FailureType) {
        match value / 64 {
            0 => FailureType::Skip,
            1 => FailureType::Discard,
            2 => FailureType::DiscardSendAll,
            _ => FailureType::DiscardSendUnicast,
        }
    }
}

impl vstd::std_specs::convert::FromSpecImpl<u8> for FailureType {
    open spec fn obeys_from_spec() -> bool {
        true
    }

    open spec fn from_spec(v: u8) -> FailureType {
        FailureType::from_bits(v)
    }
}

impl From<FailureType> for u8 {
    fn from(value: FailureType) -> (r: u8) {
        match value {
            FailureType::Skip => 0,
            FailureType::Discard => 0x40,
            FailureType::DiscardSendAll => 0x80,
            FailureType::DiscardSendUnicast => 0xc0,
        }
    }
}

impl vstd::std_specs::convert::FromSpecImpl<FailureType> for u8 {
    open spec fn obeys_from_spec() -> bool {
        true
    }

    open spec fn from_spec(v: FailureType) -> u8 {
        v.bits()
    }
}

impl From<Type> for FailureType {
    fn from(other: Type) -> (r: FailureType) {
        let raw: u8 = other.into();
        proof {
            lemma_failure_top_bits(raw);
        }
        Self::from(raw & 0xc0)
    }
}

impl vstd::std_specs::convert::FromSpecImpl<Type> for FailureType {
    open spec fn obeys_from_spec() -> bool {
        true
    }

    open spec fn from_spec(v: Type) -> FailureType {
        FailureType::from_bits(v.raw())
    }
}

/// The top two bits of an octet alone name the same action as the octet.
pub proof fn lemma_failure_top_bits(v: u8)
    ensures
        FailureType::from_bits(v & 0xc0) == FailureType::from_bits(v),
        FailureType::from_bits(v).bits() == v & 0xc0,
{
    assert((v & 0xc0) / 64 == v / 64) by (bit_vector);
    assert(v / 64 == 0 ==> v & 0xc0 == 0) by (bit_vector);
    assert(v / 64 == 1 ==> v & 0xc0 == 0x40) by (bit_vector);
    assert(v / 64 == 2 ==> v & 0xc0 == 0x80) by (bit_vector);
    assert(v / 64 == 3 ==> v & 0xc0 == 0xc0) by (bit_vector);
}

/// The octets of the option data, for a given data length.
#[allow(non_snake_case)]
pub fn DATA(length: u8) -> (r: core::ops::Range<usize>)
    ensures
        r.start == 2,
        r.end == length + 2,
{
    2..length as usize + 2
}

/// The buffer holds the option it describes: a one-octet Pad1, or the type,
/// the length and that many octets of data.
pub open spec fn len_ok(s: Seq<u8>) -> bool {
    s.len() >= 1 && (s[0] == 0 || (s.len() >= 2 && s.len() >= s[1] + 2))
}

/// A read/write wrapper around an IPv6 Extension Header Option.
#[derive(Debug, PartialEq, Eq)]
pub struct Ipv6Option<T> {
    buffer: T,
}

impl<T> Ipv6Option<T> {
    /// The buffer underneath.
    pub closed spec fn inner(&self) -> T {
        self.buffer
    }

    /// Create a raw octet buffer with an IPv6 Extension Header Option
    /// structure.
    pub fn new_unchecked(buffer: T) -> (r: Ipv6Option<T>)
        ensures
            r.inner() == buffer,
    {
        Ipv6Option { buffer }
    }

    /// Consume the ipv6 option, returning the underlying buffer.
    pub fn into_inner(self) -> (r: T)
        ensures
            r == self.inner(),
    {
        self.buffer
    }
}

impl<T: Bytes> Ipv6Option<T> {
    /// The octets of the option.
    pub open spec fn data_spec(&self) -> Seq<u8> {
        self.inner().bytes()
    }

    /// Shorthand for a combination of [`Ipv6Option::new_unchecked`] and
    /// [`Ipv6Option::check_len`].
    pub fn new_checked(buffer: T) -> (r: Result<Ipv6Option<T>>)
        ensures
            r is Ok <==> len_ok(buffer.bytes()),
            r matches Ok(o) ==> o.inner() == buffer,
    {
        let opt = Self::new_unchecked(buffer);
        match opt.check_len() {
            Ok(()) => Ok(opt),
            Err(e) => Err(e),
        }
    }

    /// Ensure that no accessor method will panic if called.
    /// Returns `Err(Error)` if the buffer is too short for the option it
    /// describes.
    pub fn check_len(&self) -> (r: Result<()>)
        ensures
            r is Ok <==> len_ok(self.data_spec()),
    {
        match self.checked_len() {
            Ok(_) => Ok(()),
            Err(e) => Err(e),
        }
    }

    /// The buffer's length, when it passes [`Ipv6Option::check_len`].
    pub(crate) fn checked_len(&self) -> (r: Result<usize>)
        ensures
            r is Ok <==> len_ok(self.data_spec()),
            r matches Ok(n) ==> n == self.data_spec().len(),
    {
        let len = self.buffer.byte_len();
        if len < 1 {
            return Err(Error);
        }
        if self.option_type() == Type::Pad1 {
            return Ok(len);
        }
        if len == 1 {
            return Err(Error);
        }
        if len < self.data_len() as usize + 2 {
            return Err(Error);
        }
        Ok(len)
    }

    /// The data length, when the buffer holds the length field and the data.
    pub(crate) fn checked_data_len(&self) -> (r: Result<usize>)
        ensures
            r is Ok <==> self.data_spec().len() >= 2 && self.data_spec().len()
                >= self.data_spec()[1] + 2,
            r matches Ok(n) ==> n == self.data_spec()[1],
    {
        let len = self.buffer.byte_len();
        if len < 2 {
            return Err(Error);
        }
        let data_len = self.data_len() as usize;
        if len < data_len + 2 {
            return Err(Error);
        }
        Ok(data_len)
    }

    /// Return the option type.
    pub fn option_type(&self) -> (r: Type)
        requires
            self.data_spec().len() >= 1,
        ensures
            r == Type::from_raw(self.data_spec()[0]),
    {
        Type::from(self.buffer.as_bytes()[0])
    }

    /// Return the length of the data.
    pub fn data_len(&self) -> (r: u8)
        requires
            self.data_spec().len() >= 2,
        ensures
            r == self.data_spec()[1],
    {
        self.buffer.as_bytes()[1]
    }
}

impl<'a> Ipv6Option<Ref<'a>> {
    /// [`Ipv6Option::new_checked`] over a [`Ref`].
    pub fn new_checked_ref(buffer: Ref<'a>) -> (r: Result<Ipv6Option<Ref<'a>>>)
        ensures
            r is Ok <==> len_ok(buffer.view_bytes()),
            r matches Ok(o) ==> o.inner() == buffer,
    {
        let opt = Ipv6Option::new_unchecked(buffer);
        match opt.checked_len() {
            Ok(_) => Ok(opt),
            Err(e) => Err(e),
        }
    }

    /// Return the option data, with the buffer's lifetime.
    pub fn data(&self) -> (r: &'a [u8])
        requires
            self.data_spec().len() >= 2,
            self.data_spec().len() >= self.data_spec()[1] + 2,
        ensures
            r@ == self.data_spec().subrange(2, self.data_spec()[1] + 2),
    {
        self.buffer.window(2, self.data_len() as usize + 2)
    }
}

impl<T: BytesMut> Ipv6Option<T> {
    /// Set the option type.
    pub fn set_option_type(&mut self, value: Type)
        requires
            old(self).data_spec().len() >= 1,
        ensures
            final(self).data_spec() == old(self).data_spec().update(0, value.raw()),
    {
        self.buffer.set_byte(0, value.into());
    }

    /// Set the option data length.
    pub fn set_data_len(&mut self, value: u8)
        requires
            old(self).data_spec().len() >= 2,
        ensures
            final(self).data_spec() == old(self).data_spec().update(1, value),
    {
        self.buffer.set_byte(1, value);
    }
}

impl<T: BytesSliceMut> Ipv6Option<T> {
    /// Return a mutable pointer to the option data.
    pub fn data_mut(&mut self) -> (r: &mut [u8])
        requires
            old(self).data_spec().len() >= 2,
            old(self).data_spec().len() >= old(self).data_spec()[1] + 2,
        ensures
            r@ == old(self).data_spec().subrange(2, old(self).data_spec()[1] + 2),
            final(self).data_spec() == old(self).data_spec().subrange(0, 2) + final(r)@ + old(
                self,
            ).data_spec().subrange(
                old(self).data_spec()[1] + 2,
                old(self).data_spec().len() as int,
            ),
    {
        let len = self.data_len() as usize;
        let data = self.buffer.as_bytes_mut();
        let (head, _rest) = data.split_at_mut(len + 2);
        let (_fixed, payload) = head.split_at_mut(2);
        payload
    }
}

/// A high-level representation of an IPv6 Extension Header Option.
#[derive(Debug, PartialEq, Eq, Clone, Copy)]
#[non_exhaustive]
pub enum Repr<'a> {
    Pad1,
    PadN(u8),
    RouterAlert(RouterAlert),
    Unknown { type_: Type, length: u8, data: &'a [u8] },
}

/// The data of an option of unknown type, cut to its declared length.
fn unknown_data(data: &[u8], length: u8) -> (r: &[u8])
    requires
        length <= data@.len(),
    ensures
        r@ == data@.subrange(0, length as int),
{
    crate::buf::prefix(data, length as usize)
}

/// Parsing the option in `s` succeeds: it is long enough for what it
/// declares, and a Router Alert carries two octets of data.
pub open spec fn parse_ok(s: Seq<u8>) -> bool {
    len_ok(s) && (s[0] == 5 ==> s[1] == 2)
}

impl<'a> Repr<'a> {
    /// This representation is what parsing the option in `s` gives, when
    /// parsing succeeds.
    pub open spec fn parsed_from(self, s: Seq<u8>) -> bool {
        match self {
            Repr::Pad1 => s[0] == 0,
            Repr::PadN(length) => s[0] == 1 && length == s[1],
            Repr::RouterAlert(alert) => s[0] == 5 && alert == RouterAlert::from_raw(be16(s, 2)),
            Repr::Unknown { type_, length, data } => s[0] != 0 && s[0] != 1 && s[0] != 5
                && type_ == Type::from_raw(s[0]) && length == s[1] && data@ == s.subrange(
                2,
                s[1] + 2,
            ),
        }
    }

    /// Parse an IPv6 Extension Header Option and return a high-level
    /// representation.
    pub fn parse(opt: &Ipv6Option<Ref<'a>>) -> (r: Result<Repr<'a>>)
        ensures
            r is Ok <==> parse_ok(opt.data_spec()),
            r matches Ok(x) ==> x.parsed_from(opt.data_spec()),
    {
        match opt.checked_len() {
            Ok(_) => {},
            Err(e) => return Err(e),
        }
        match opt.option_type() {
            Type::Pad1 => Ok(Repr::Pad1),
            Type::PadN => {
                match opt.checked_data_len() {
                    Ok(_) => {},
                    Err(e) => return Err(e),
                }
                Ok(Repr::PadN(opt.data_len()))
            },
            Type::RouterAlert => {
                let n = match opt.checked_data_len() {
                    Ok(n) => n,
                    Err(e) => return Err(e),
                };
                if n == 2 {
                    let raw = read_u16_at(opt.data(), 0);
                    Ok(Repr::RouterAlert(RouterAlert::from(raw)))
                } else {
                    Err(Error)
                }
            },
            Type::Rpl => {
                match opt.checked_data_len() {
                    Ok(_) => {},
                    Err(e) => return Err(e),
                }
                Ok(Repr::Unknown { type_: Type::Rpl, length: opt.data_len(), data: opt.data() })
            },
            Type::Unknown(t) => {
                match opt.checked_data_len() {
                    Ok(_) => {},
                    Err(e) => return Err(e),
                }
                Ok(
                    Repr::Unknown {
                        type_: Type::Unknown(t),
                        length: opt.data_len(),
                        data: opt.data(),
                    },
                )
            },
        }
    }

    /// The length of the option this representation is emitted as.
    pub open spec fn buffer_len_spec(self) -> int {
        match self {
            Repr::Pad1 => 1,
            Repr::PadN(length) => length + 2,
            Repr::RouterAlert(_) => 4,
            Repr::Unknown { length, .. } => length + 2,
        }
    }

    /// Return the length of a header that will be emitted from this
    /// high-level representation.
    pub fn buffer_len(&self) -> (r: usize)
        ensures
            r == self.buffer_len_spec(),
    {
        match *self {
            Repr::Pad1 => 1,
            Repr::PadN(length) => length as usize + 2,
            Repr::RouterAlert(_) => RouterAlert::DATA_LEN as usize + 2,
            Repr::Unknown { length, .. } => length as usize + 2,
        }
    }

    /// The option can be emitted: an unknown option carries at least the
    /// data it declares.
    pub open spec fn emittable(self) -> bool {
        self matches Repr::Unknown { length, data, .. } ==> length <= data@.len()
    }

    /// `s` with this option emitted over its first octets.
    pub open spec fn emit_spec(self, s: Seq<u8>) -> Seq<u8> {
        match self {
            Repr::Pad1 => s.update(0, 0u8),
            Repr::PadN(length) => fill(s.update(0, 1u8).update(1, length), 2, length as int, 0u8),
            Repr::RouterAlert(alert) => put_be16(s.update(0, 5u8).update(1, 2u8), 2, alert.raw()),
            Repr::Unknown { type_, length, data } => splice(
                s.update(0, type_.raw()).update(1, length),
                2,
                data@.subrange(0, length as int),
            ),
        }
    }

    /// Emit a high-level representation into an IPv6 Extension Header
    /// Option.
    pub fn emit<T: BytesSliceMut>(&self, opt: &mut Ipv6Option<T>)
        requires
            old(opt).data_spec().len() >= self.buffer_len_spec(),
            self.emittable(),
        ensures
            final(opt).data_spec() == self.emit_spec(old(opt).data_spec()),
    {
        let ghost s0 = opt.data_spec();
        match *self {
            Repr::Pad1 => opt.set_option_type(Type::Pad1),
            Repr::PadN(len) => {
                opt.set_option_type(Type::PadN);
                opt.set_data_len(len);
                let ghost s1 = opt.data_spec();
                let window = opt.data_mut();
                let n = window.len();
                let mut i: usize = 0;
                while i < n
                    invariant
                        n == window@.len(),
                        i <= n,
                        forall|j: int| 0 <= j < i ==> window@[j] == 0,
                    decreases n - i,
                {
                    window[i] = 0;
                    i = i + 1;
                }
                proof {
                    assert(window@ =~= Seq::new(len as nat, |j: int| 0u8));
                }
                assert(opt.data_spec() =~= self.emit_spec(s0));
            },
            Repr::RouterAlert(router_alert) => {
                opt.set_option_type(Type::RouterAlert);
                opt.set_data_len(RouterAlert::DATA_LEN);
                let window = opt.data_mut();
                crate::buf::write_u16_at(window, 0, router_alert.into());
                assert(opt.data_spec() =~= self.emit_spec(s0));
            },
            Repr::Unknown { type_, length, data } => {
                opt.set_option_type(type_);
                opt.set_data_len(length);
                let window = opt.data_mut();
                let src = unknown_data(data, length);
                crate::buf::copy_window_at(window, 0, length as usize, src);
                assert(opt.data_spec() =~= self.emit_spec(s0));
            },
        }
    }
}

/// An option parses back from what it emits when its values are canonical: a
/// Router Alert value of a name of its own, and an unknown option whose type
/// is none of the three that parse to another representation and whose data
/// is as long as it declares.
pub open spec fn emit_parses_back(r: Repr) -> bool {
    match r {
        Repr::Pad1 => true,
        Repr::PadN(_) => true,
        Repr::RouterAlert(alert) => alert.is_canonical(),
        Repr::Unknown { type_, length, data } => type_.is_canonical() && type_.raw() != 0
            && type_.raw() != 1 && type_.raw() != 5 && data@.len() == length,
    }
}

/// Parsing the option that was emitted gives back the representation.
pub proof fn lemma_emit_then_parse(r: Repr, s: Seq<u8>)
    requires
        s.len() >= r.buffer_len_spec(),
        emit_parses_back(r),
    ensures
        parse_ok(r.emit_spec(s)),
        r.parsed_from(r.emit_spec(s)),
{
    let t = r.emit_spec(s);
    match r {
        Repr::Unknown { type_, length, data } => {
            assert(t.subrange(2, t[1] + 2) =~= data@);
        },
        _ => {},
    }
}

/// A walk over a sequence of options.
#[derive(Debug)]
pub struct Ipv6OptionsIterator<'a> {
    pos: usize,
    length: usize,
    data: &'a [u8],
    hit_error: bool,
}

impl<'a> Ipv6OptionsIterator<'a> {
    /// The walk never passes the end of its data.
    #[verifier::type_invariant]
    spec fn wf(self) -> bool {
        self.pos <= self.length && self.length == self.data@.len()
    }

    /// How far into the data the walk has come.
    pub closed spec fn position(self) -> nat {
        self.pos as nat
    }

    /// The octets being walked.
    pub closed spec fn octets(self) -> Seq<u8> {
        self.data@
    }

    /// Whether the walk has stopped at an option it could not parse.
    pub closed spec fn stopped(self) -> bool {
        self.hit_error
    }

    /// The options that remain to be walked.
    pub open spec fn rest(self) -> Seq<u8> {
        self.octets().subrange(self.position() as int, self.octets().len() as int)
    }

    /// Create a new `Ipv6OptionsIterator`, used to iterate over the options
    /// contained in an IPv6 Extension Header (e.g. the Hop-by-Hop header).
    pub fn new(data: &'a [u8]) -> (r: Ipv6OptionsIterator<'a>)
        ensures
            r.octets() == data@,
            r.position() == 0,
            !r.stopped(),
    {
        let length = data.len();
        Ipv6OptionsIterator { pos: 0, hit_error: false, length, data }
    }

    /// The next option, or the error that ends the walk; `None` once the
    /// data is used up or an error has been returned.
    pub fn next(&mut self) -> (r: Option<Result<Repr<'a>>>)
        ensures
            final(self).octets() == old(self).octets(),
            final(self).position() <= final(self).octets().len(),
            old(self).stopped() || old(self).rest().len() == 0 ==> r is None && *final(self)
                == *old(self),
            !old(self).stopped() && old(self).rest().len() > 0 ==> {
                let s = old(self).rest();
                match r {
                    Some(Ok(x)) => parse_ok(s) && x.parsed_from(s) && !final(self).stopped()
                        && final(self).position() == old(self).position() + x.buffer_len_spec(),
                    Some(Err(_)) => !parse_ok(s) && final(self).stopped()
                        && final(self).position() == old(self).position(),
                    None => false,
                }
            },
    {
        proof {
            use_type_invariant(&*self);
        }
        let pos = self.pos;
        if pos < self.length && !self.hit_error {
            match Ipv6Option::new_checked_ref(Ref::new(crate::buf::tail(self.data, pos))) {
                Ok(hdr) => match Repr::parse(&hdr) {
                    Ok(repr) => {
                        let n = repr.buffer_len();
                        self.pos = pos + n;
                        Some(Ok(repr))
                    },
                    Err(e) => {
                        self.hit_error = true;
                        Some(Err(e))
                    },
                },
                Err(e) => {
                    self.hit_error = true;
                    Some(Err(e))
                },
            }
        } else {
            None
        }
    }
}

} // verus!
