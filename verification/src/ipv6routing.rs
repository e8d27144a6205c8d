//! The IPv6 Routing header: the Type 2 header of Mobile IPv6 and the RPL
//! Source Routing header.

use vstd::prelude::*;
use crate::buf::{splice, Bytes, BytesMut, Ref};
use crate::error::{Error, Result};
use crate::ipv6::Address;

verus! {

broadcast use vstd::array::group_array_axioms;

/// IPv6 Routing Header Routing Type.
#[derive(Debug, Clone, Copy, PartialEq, Eq, PartialOrd, Ord, Hash, Structural)]
pub enum Type {
    /// Source Route (DEPRECATED).
    Type0,
    /// Nimrod (DEPRECATED 2009-05-06).
    Nimrod,
    /// Type 2 Routing Header for Mobile IPv6.
    Type2,
    /// RPL Source Routing Header.
    Rpl,
    /// RFC3692-style Experiment 1.
    Experiment1,
    /// RFC3692-style Experiment 2.
    Experiment2,
    /// Reserved for future use.
    Reserved,
    /// A value with no name of its own.
    Unknown(u8),
}

impl Type {
    /// The Type that a raw value denotes.
    pub open spec fn from_raw(v: u8) -> Type {
        if v == 0 {
            Type::Type0
        } else if v == 1 {
            Type::Nimrod
        } else if v == 2 {
            Type::Type2
        } else if v == 3 {
            Type::Rpl
        } else if v == 253 {
            Type::Experiment1
        } else if v == 254 {
            Type::Experiment2
        } else if v == 252 {
            Type::Reserved
        } else {
            Type::Unknown(v)
        }
    }

    /// The raw value of a Type.
    pub open spec fn raw(self) -> u8 {
        match self {
            Type::Type0 => 0,
            Type::Nimrod => 1,
            Type::Type2 => 2,
            Type::Rpl => 3,
            Type::Experiment1 => 253,
            Type::Experiment2 => 254,
            Type::Reserved => 252,
            Type::Unknown(v) => v,
        }
    }

    /// The code table of the wire format, over every code `v`: each named
    /// value is written as the code assigned to it, that code and no other
    /// reads as it, and a code with no name reads as `Unknown` of itself.
    pub proof fn lemma_codes(v: u8)
        ensures
            Type::Type0.raw() == 0,
            Type::Nimrod.raw() == 1,
            Type::Type2.raw() == 2,
            Type::Rpl.raw() == 3,
            Type::Experiment1.raw() == 253,
            Type::Experiment2.raw() == 254,
            Type::Reserved.raw() == 252,
            (Type::from_raw(v) == Type::Type0) <==> v == 0,
            (Type::from_raw(v) == Type::Nimrod) <==> v == 1,
            (Type::from_raw(v) == Type::Type2) <==> v == 2,
            (Type::from_raw(v) == Type::Rpl) <==> v == 3,
            (Type::from_raw(v) == Type::Experiment1) <==> v == 253,
            (Type::from_raw(v) == Type::Experiment2) <==> v == 254,
            (Type::from_raw(v) == Type::Reserved) <==> v == 252,
            v != 0 && v != 1 && v != 2 && v != 3 && v != 253 && v != 254 && v != 252 ==> Type::from_raw(v) == Type::Unknown(v),
    {
    }

    /// A value is canonical when it is what its own raw value denotes; only an
    /// `Unknown` that carries a named value is not.
    pub open spec fn is_canonical(self) -> bool {
        Type::from_raw(self.raw()) == self
    }

    /// Reading back the raw value of what a raw value denotes gives that value.
    pub proof fn lemma_raw_from_raw(v: u8)
        ensures
            Type::from_raw(v).raw() == v,
            Type::from_raw(v).is_canonical(),
    {
    }
}

impl From<u8> for Type {
    fn from(v: u8) -> (r: Type) {
        match v {
            0 => Type::Type0,
            1 => Type::Nimrod,
            2 => Type::Type2,
            3 => Type::Rpl,
            253 => Type::Experiment1,
            254 => Type::Experiment2,
            252 => Type::Reserved,
            _ => Type::Unknown(v),
        }
    }
}

impl vstd::std_specs::convert::FromSpecImpl<u8> for Type {
    open spec fn obeys_from_spec() -> bool {
        true
    }

    open spec fn from_spec(v: u8) -> Type {
        Type::from_raw(v)
    }
}

impl From<Type> for u8 {
    fn from(v: Type) -> (r: u8) {
        match v {
            Type::Type0 => 0,
            Type::Nimrod => 1,
            Type::Type2 => 2,
            Type::Rpl => 3,
            Type::Experiment1 => 253,
            Type::Experiment2 => 254,
            Type::Reserved => 252,
            Type::Unknown(x) => x,
        }
    }
}

impl vstd::std_specs::convert::FromSpecImpl<Type> for u8 {
    open spec fn obeys_from_spec() -> bool {
        true
    }

    open spec fn from_spec(v: Type) -> u8 {
        v.raw()
    }
}

/// Read the sixteen octets of an address at `at`.
fn read_ipv6_at(data: &[u8], at: usize) -> (r: Address)
    requires
        at + 16 <= data@.len(),
    ensures
        r == Address::from_seq(data@.subrange(at as int, at + 16)),
{
    Address::from_bytes(crate::buf::sub(data, at, 16))
}

/// The octet whose high nibble is the low nibble of `hi` and whose low nibble
/// is the low nibble of `lo`.
pub open spec fn nibbles(hi: u8, lo: u8) -> u8 {
    ((hi % 16) * 16 + lo % 16) as u8
}

/// The octets of `s` from `at` to its end.
pub open spec fn from_on(s: Seq<u8>, at: int) -> Seq<u8> {
    s.subrange(at, s.len() as int)
}

/// The buffer holds the fixed fields of the routing type it declares.
pub open spec fn len_ok(s: Seq<u8>) -> bool {
    &&& s.len() >= 2
    &&& s[0] == 2 ==> s.len() >= 22
    &&& s[0] == 3 ==> s.len() >= 6
}

/// A read/write wrapper around an IPv6 Routing Header buffer.
#[derive(Debug, PartialEq, Eq)]
pub struct Header<T> {
    buffer: T,
}

impl<T> Header<T> {
    /// The buffer underneath.
    pub closed spec fn inner(&self) -> T {
        self.buffer
    }

    /// Create a raw octet buffer with an IPv6 Routing Header structure.
    pub fn new_unchecked(buffer: T) -> (r: Header<T>)
        ensures
            r.inner() == buffer,
    {
        Header { buffer }
    }

    /// Consume the header, returning the underlying buffer.
    pub fn into_inner(self) -> (r: T)
        ensures
            r == self.inner(),
    {
        self.buffer
    }
}

impl<T: Bytes> Header<T> {
    /// The octets of the header.
    pub open spec fn data(&self) -> Seq<u8> {
        self.inner().bytes()
    }

    /// Shorthand for a combination of [`Header::new_unchecked`] and [`Header::check_len`].
    pub fn new_checked(buffer: T) -> (r: Result<Header<T>>)
        ensures
            r is Ok <==> len_ok(buffer.bytes()),
            r matches Ok(h) ==> h.inner() == buffer,
    {
        let header = Self::new_unchecked(buffer);
        match header.check_len() {
            Ok(()) => Ok(header),
            Err(e) => Err(e),
        }
    }

    /// The buffer's length, when it passes [`Header::check_len`].
    fn checked_len(&self) -> (r: Result<usize>)
        ensures
            r is Ok <==> len_ok(self.data()),
            r matches Ok(n) ==> n == self.data().len(),
    {
        let len = self.buffer.byte_len();
        if len < 2 {
            return Err(Error);
        }
        match self.routing_type() {
            Type::Type2 => {
                if len < 22 {
                    return Err(Error);
                }
            },
            Type::Rpl => {
                if len < 6 {
                    return Err(Error);
                }
            },
            Type::Type0
            | Type::Nimrod
            | Type::Reserved
            | Type::Experiment1
            | Type::Experiment2
            | Type::Unknown(_) => (),
        }
        Ok(len)
    }

    /// Ensure that no accessor method will panic if called.
    /// Returns `Err(Error)` if the buffer is too short for the fixed fields
    /// of its routing type.
    pub fn check_len(&self) -> (r: Result<()>)
        ensures
            r is Ok <==> len_ok(self.data()),
    {
        match self.checked_len() {
            Ok(_) => Ok(()),
            Err(e) => Err(e),
        }
    }

    /// Return the routing type field.
    pub fn routing_type(&self) -> (r: Type)
        requires
            self.data().len() >= 1,
        ensures
            r == Type::from_raw(self.data()[0]),
    {
        Type::from(self.buffer.as_bytes()[0])
    }

    /// Return the segments left field.
    pub fn segments_left(&self) -> (r: u8)
        requires
            self.data().len() >= 2,
        ensures
            r == self.data()[1],
    {
        self.buffer.as_bytes()[1]
    }

    /// Return the home address of a Type 2 Routing Header.
    pub fn home_address(&self) -> (r: Address)
        requires
            self.data().len() >= 22,
        ensures
            r == Address::from_seq(self.data().subrange(6, 22)),
    {
        read_ipv6_at(self.buffer.as_bytes(), 6)
    }

    /// Return the number of prefix octets elided from addresses[1..n-1].
    pub fn cmpr_i(&self) -> (r: u8)
        requires
            self.data().len() >= 3,
        ensures
            r == self.data()[2] / 16,
    {
        let b = self.buffer.as_bytes()[2];
        proof {
            assert(b >> 4 == b / 16) by (bit_vector);
        }
        b >> 4
    }

    /// Return the number of prefix octets elided from the last address.
    pub fn cmpr_e(&self) -> (r: u8)
        requires
            self.data().len() >= 3,
        ensures
            r == self.data()[2] % 16,
    {
        let b = self.buffer.as_bytes()[2];
        proof {
            assert(b & 0xf == b % 16) by (bit_vector);
        }
        b & 0xf
    }

    /// Return the number of octets used for padding after the addresses.
    pub fn pad(&self) -> (r: u8)
        requires
            self.data().len() >= 4,
        ensures
            r == self.data()[3] / 16,
    {
        let b = self.buffer.as_bytes()[3];
        proof {
            assert(b >> 4 == b / 16) by (bit_vector);
        }
        b >> 4
    }

    /// Return the addresses of an RPL Source Routing Header.
    pub fn addresses(&self) -> (r: &[u8])
        requires
            self.data().len() >= 6,
        ensures
            r@ == self.data().subrange(6, self.data().len() as int),
    {
        crate::buf::tail(self.buffer.as_bytes(), 6)
    }
}

impl<T: BytesMut> Header<T> {
    /// Set the routing type field.
    pub fn set_routing_type(&mut self, value: Type)
        requires
            old(self).data().len() >= 1,
        ensures
            final(self).data() == old(self).data().update(0, value.raw()),
    {
        self.buffer.set_byte(0, value.into());
    }

    /// Set the segments left field.
    pub fn set_segments_left(&mut self, value: u8)
        requires
            old(self).data().len() >= 2,
        ensures
            final(self).data() == old(self).data().update(1, value),
    {
        self.buffer.set_byte(1, value);
    }

    /// Zero the reserved fields of a Type 2 or an RPL Source Routing Header.
    pub fn clear_reserved(&mut self)
        requires
            old(self).data().len() >= 6,
            old(self).data()[0] == 2 || old(self).data()[0] == 3,
        ensures
            old(self).data()[0] == 2 ==> final(self).data() == old(self).data().update(
                2,
                0u8,
            ).update(3, 0u8).update(4, 0u8).update(5, 0u8),
            old(self).data()[0] == 3 ==> final(self).data() == old(self).data().update(
                3,
                (old(self).data()[3] / 16 * 16) as u8,
            ).update(4, 0u8).update(5, 0u8),
    {
        let routing_type = self.routing_type();
        if routing_type == Type::Type2 {
            self.buffer.set_byte(2, 0);
            self.buffer.set_byte(3, 0);
            self.buffer.set_byte(4, 0);
            self.buffer.set_byte(5, 0);
        } else {
            let b = self.buffer.as_bytes()[3];
            proof {
                assert(b & 0xf0 == b / 16 * 16) by (bit_vector);
            }
            self.buffer.set_byte(3, b & 0xF0);
            self.buffer.set_byte(4, 0);
            self.buffer.set_byte(5, 0);
        }
    }

    /// Set the home address of a Type 2 Routing Header.
    pub fn set_home_address(&mut self, value: Address)
        requires
            old(self).data().len() >= 22,
        ensures
            final(self).data() == splice(old(self).data(), 6, value@),
    {
        proof {
            Address::lemma_view(value);
        }
        self.buffer.copy_in(6, value.as_bytes());
    }

    /// Set the number of prefix octets elided from addresses[1..n-1]; only
    /// the low four bits of `value` are kept.
    pub fn set_cmpr_i(&mut self, value: u8)
        requires
            old(self).data().len() >= 3,
        ensures
            final(self).data() == old(self).data().update(2, nibbles(value, old(self).data()[2])),
    {
        let b = self.buffer.as_bytes()[2];
        let raw = (value << 4) | (b & 0xF);
        proof {
            assert((value << 4) | (b & 0xF) == (value % 16) * 16 + b % 16) by (bit_vector);
        }
        self.buffer.set_byte(2, raw);
    }

    /// Set the number of prefix octets elided from the last address; only
    /// the low four bits of `value` are kept.
    pub fn set_cmpr_e(&mut self, value: u8)
        requires
            old(self).data().len() >= 3,
        ensures
            final(self).data() == old(self).data().update(
                2,
                nibbles(old(self).data()[2] / 16, value),
            ),
    {
        let b = self.buffer.as_bytes()[2];
        let raw = (value & 0xF) | (b & 0xF0);
        proof {
            assert((value & 0xF) | (b & 0xF0) == (b / 16) % 16 * 16 + value % 16) by (bit_vector);
        }
        self.buffer.set_byte(2, raw);
    }

    /// Set the number of octets used for padding after the addresses; only
    /// the low four bits of `value` are kept, and the reserved bits after
    /// them are cleared.
    pub fn set_pad(&mut self, value: u8)
        requires
            old(self).data().len() >= 4,
        ensures
            final(self).data() == old(self).data().update(3, ((value % 16) * 16) as u8),
    {
        proof {
            assert(value << 4 == (value % 16) * 16) by (bit_vector);
        }
        self.buffer.set_byte(3, value << 4);
    }

    /// Set the addresses of an RPL Source Routing Header, which fill the
    /// buffer from octet six on.
    pub fn set_addresses(&mut self, value: &[u8])
        requires
            old(self).data().len() == 6 + value@.len(),
        ensures
            final(self).data() == splice(old(self).data(), 6, value@),
    {
        self.buffer.copy_in(6, value);
    }
}

/// A high-level representation of an IPv6 Routing Header.
#[derive(Debug, PartialEq, Eq, Clone, Copy)]
#[non_exhaustive]
pub enum Repr<'a> {
    Type2 { segments_left: u8, home_address: Address },
    Rpl { segments_left: u8, cmpr_i: u8, cmpr_e: u8, pad: u8, addresses: &'a [u8] },
}

/// Parsing `s` succeeds: it is a Type 2 or an RPL Source Routing header
/// holding its fixed fields.
pub open spec fn parse_ok(s: Seq<u8>) -> bool {
    len_ok(s) && (s[0] == 2 || s[0] == 3)
}

impl<'a> Repr<'a> {
    /// This representation is what parsing `s` gives, when parsing succeeds.
    pub open spec fn parsed_from(self, s: Seq<u8>) -> bool {
        match self {
            Repr::Type2 { segments_left, home_address } => s[0] == 2 && segments_left == s[1]
                && home_address == Address::from_seq(s.subrange(6, 22)),
            Repr::Rpl { segments_left, cmpr_i, cmpr_e, pad, addresses } => s[0] == 3
                && segments_left == s[1] && cmpr_i == s[2] / 16 && cmpr_e == s[2] % 16 && pad
                == s[3] / 16 && addresses@ == from_on(s, 6),
        }
    }

    /// Parse an IPv6 Routing Header and return a high-level representation.
    pub fn parse_ref(header: &'a Header<Ref<'a>>) -> (r: Result<Repr<'a>>)
        ensures
            r is Ok <==> parse_ok(header.data()),
            r matches Ok(x) ==> x.parsed_from(header.data()),
    {
        match header.checked_len() {
            Ok(_) => {},
            Err(e) => return Err(e),
        }
        match header.routing_type() {
            Type::Type2 => Ok(
                Repr::Type2 {
                    segments_left: header.segments_left(),
                    home_address: header.home_address(),
                },
            ),
            Type::Rpl => Ok(
                Repr::Rpl {
                    segments_left: header.segments_left(),
                    cmpr_i: header.cmpr_i(),
                    cmpr_e: header.cmpr_e(),
                    pad: header.pad(),
                    addresses: header.addresses(),
                },
            ),
            _ => Err(Error),
        }
    }

    /// The length of the header this representation is emitted as.
    pub open spec fn buffer_len_spec(self) -> int {
        match self {
            Repr::Type2 { .. } => 22,
            Repr::Rpl { addresses, .. } => 6 + addresses@.len() as int,
        }
    }

    /// Return the length, in octets, of a header that will be emitted from
    /// this high-level representation.
    pub fn buffer_len(&self) -> (r: usize)
        requires
            self.buffer_len_spec() <= usize::MAX,
        ensures
            r == self.buffer_len_spec(),
    {
        match self {
            Repr::Type2 { home_address, .. } => 2 + 4 + home_address.octets().len(),
            Repr::Rpl { addresses, .. } => 2 + 4 + addresses.len(),
        }
    }

    /// The octets of the header this representation is emitted as.
    pub open spec fn octets_spec(self) -> Seq<u8> {
        match self {
            Repr::Type2 { segments_left, home_address } => seq![2u8, segments_left, 0, 0, 0, 0]
                + home_address@,
            Repr::Rpl { segments_left, cmpr_i, cmpr_e, pad, addresses } => seq![
                3u8,
                segments_left,
                nibbles(cmpr_i, cmpr_e),
                nibbles(pad, 0),
                0,
                0,
            ] + addresses@,
        }
    }

    /// Emit a high-level representation into an IPv6 Routing Header whose
    /// length is [`Repr::buffer_len`].
    pub fn emit<T: BytesMut>(&self, header: &mut Header<T>)
        requires
            old(header).data().len() == self.buffer_len_spec(),
        ensures
            final(header).data() == self.octets_spec(),
    {
        match *self {
            Repr::Type2 { segments_left, home_address } => {
                header.set_routing_type(Type::Type2);
                header.set_segments_left(segments_left);
                header.clear_reserved();
                header.set_home_address(home_address);
                proof {
                    Address::lemma_view(home_address);
                }
            },
            Repr::Rpl { segments_left, cmpr_i, cmpr_e, pad, addresses } => {
                header.set_routing_type(Type::Rpl);
                header.set_segments_left(segments_left);
                header.set_cmpr_i(cmpr_i);
                header.set_cmpr_e(cmpr_e);
                header.set_pad(pad);
                header.clear_reserved();
                header.set_addresses(addresses);
            },
        }
        assert(header.data() =~= self.octets_spec());
    }
}

/// A header parses back from what it emits when the fields of an RPL Source
/// Routing header fit their four bits.
pub open spec fn emit_parses_back(r: Repr) -> bool {
    r matches Repr::Rpl { cmpr_i, cmpr_e, pad, .. } ==> cmpr_i < 16 && cmpr_e < 16 && pad < 16
}

/// Parsing the header that was emitted gives back the representation.
pub proof fn lemma_emit_then_parse(r: Repr)
    requires
        emit_parses_back(r),
    ensures
        parse_ok(r.octets_spec()),
        r.parsed_from(r.octets_spec()),
{
    let t = r.octets_spec();
    match r {
        Repr::Type2 { segments_left, home_address } => {
            Address::lemma_view(home_address);
            assert(t.subrange(6, 22) =~= home_address@);
        },
        Repr::Rpl { segments_left, cmpr_i, cmpr_e, pad, addresses } => {
            assert(from_on(t, 6) =~= addresses@);
        },
    }
}

} // verus!
