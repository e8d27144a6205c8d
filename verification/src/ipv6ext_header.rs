//! The generic layout of an IPv6 extension header: a next header octet, a
//! length octet, and data.

use vstd::prelude::*;
use crate::buf::{Bytes, BytesMut, BytesSliceMut, Ref};
use crate::error::{Error, Result};
use crate::ip::IpProtocol;

verus! {

/// The smallest extension header: one unit of eight octets.
pub const MIN_HEADER_SIZE: usize = 8;

/// The octets of the data that follow the length field, for a given length
/// field: the header is `length_field + 1` units of eight octets.
#[allow(non_snake_case)]
pub fn PAYLOAD(length_field: u8) -> (r: core::ops::Range<usize>)
    ensures
        r.start == 2,
        r.end == length_field * 8 + 8,
{
    let bytes = length_field as usize * 8 + 8;
    2..bytes
}

/// The end of the header that the length field of `s` describes.
pub open spec fn end_of(s: Seq<u8>) -> int {
    s[1] * 8 + 8
}

/// The buffer holds the whole header it describes.
pub open spec fn len_ok(s: Seq<u8>) -> bool {
    s.len() >= MIN_HEADER_SIZE && s.len() >= end_of(s)
}

/// A read/write wrapper around an IPv6 extension header buffer.
#[derive(Debug, PartialEq, Eq)]
pub struct Header<T> {
    buffer: T,
}

impl<T> Header<T> {
    /// The buffer underneath.
    pub closed spec fn inner(&self) -> T {
        self.buffer
    }

    /// Create a raw octet buffer with an IPv6 extension header structure.
    pub fn new_unchecked(buffer: T) -> (r: Header<T>)
        ensures
            r.inner() == buffer,
    {
        Header { buffer }
    }

    /// Consume the header, returning the underlying buffer.
    pub fn into_inner(self) -> (r: T)
        ensures
            r == self.inner(),
    {
        self.buffer
    }
}

impl<T: Bytes> Header<T> {
    /// The octets of the header.
    pub open spec fn data(&self) -> Seq<u8> {
        self.inner().bytes()
    }

    /// Shorthand for a combination of [`Header::new_unchecked`] and [`Header::check_len`].
    pub fn new_checked(buffer: T) -> (r: Result<Header<T>>)
        ensures
            r is Ok <==> len_ok(buffer.bytes()),
            r matches Ok(h) ==> h.inner() == buffer,
    {
        let header = Self::new_unchecked(buffer);
        match header.check_len() {
            Ok(()) => Ok(header),
            Err(e) => Err(e),
        }
    }

    /// Ensure that no accessor method will panic if called.
    /// Returns `Err(Error)` if the buffer is too short for the header it
    /// describes.
    pub fn check_len(&self) -> (r: Result<()>)
        ensures
            r is Ok <==> len_ok(self.data()),
    {
        match self.checked_len() {
            Ok(_) => Ok(()),
            Err(e) => Err(e),
        }
    }

    /// The buffer's length, when it passes [`Header::check_len`].
    fn checked_len(&self) -> (r: Result<usize>)
        ensures
            r is Ok <==> len_ok(self.data()),
            r matches Ok(n) ==> n == self.data().len(),
    {
        let len = self.buffer.byte_len();
        if len < MIN_HEADER_SIZE {
            return Err(Error);
        }
        let end = self.header_len() as usize * 8 + 8;
        if len < end {
            return Err(Error);
        }
        Ok(len)
    }

    /// Return the next header field.
    pub fn next_header(&self) -> (r: IpProtocol)
        requires
            self.data().len() >= 1,
        ensures
            r == IpProtocol::from_raw(self.data()[0]),
    {
        IpProtocol::from(self.buffer.as_bytes()[0])
    }

    /// Return the header length field.
    pub fn header_len(&self) -> (r: u8)
        requires
            self.data().len() >= 2,
        ensures
            r == self.data()[1],
    {
        self.buffer.as_bytes()[1]
    }
}

impl<'h> Header<Ref<'h>> {
    /// [`Header::new_checked`] over a [`Ref`].
    pub fn new_checked_ref(buffer: Ref<'h>) -> (r: Result<Header<Ref<'h>>>)
        ensures
            r is Ok <==> len_ok(buffer.view_bytes()),
            r matches Ok(h) ==> h.inner() == buffer,
    {
        let header = Header::new_unchecked(buffer);
        match header.checked_len() {
            Ok(_) => Ok(header),
            Err(e) => Err(e),
        }
    }

    /// Return the data of the header, after the length field, with the
    /// buffer's lifetime.
    pub fn payload(&self) -> (r: &'h [u8])
        requires
            self.data().len() >= 2,
            end_of(self.data()) <= self.data().len(),
        ensures
            r@ == self.data().subrange(2, end_of(self.data())),
    {
        self.buffer.window(2, self.header_len() as usize * 8 + 8)
    }
}

impl<T: BytesMut> Header<T> {
    /// Set the next header field.
    pub fn set_next_header(&mut self, value: IpProtocol)
        requires
            old(self).data().len() >= 1,
        ensures
            final(self).data() == old(self).data().update(0, value.raw()),
    {
        self.buffer.set_byte(0, value.into());
    }

    /// Set the extension header data length, in units of eight octets, not
    /// counting the first.
    pub fn set_header_len(&mut self, value: u8)
        requires
            old(self).data().len() >= 2,
        ensures
            final(self).data() == old(self).data().update(1, value),
    {
        self.buffer.set_byte(1, value);
    }
}

impl<T: BytesSliceMut> Header<T> {
    /// Return a mutable pointer to the data of the header.
    pub fn payload_mut(&mut self) -> (r: &mut [u8])
        requires
            old(self).data().len() >= 2,
            end_of(old(self).data()) <= old(self).data().len(),
        ensures
            r@ == old(self).data().subrange(2, end_of(old(self).data())),
            final(self).data() == old(self).data().subrange(0, 2) + final(r)@ + old(
                self,
            ).data().subrange(end_of(old(self).data()), old(self).data().len() as int),
    {
        let len = self.header_len() as usize;
        let data = self.buffer.as_bytes_mut();
        let (head, _rest) = data.split_at_mut(len * 8 + 8);
        let (_fixed, payload) = head.split_at_mut(2);
        payload
    }
}

/// A high-level representation of an IPv6 extension header.
#[derive(Debug, PartialEq, Eq, Clone, Copy)]
pub struct Repr<'a> {
    pub next_header: IpProtocol,
    pub length: u8,
    pub data: &'a [u8],
}

impl<'a> Repr<'a> {
    /// This representation is what parsing `s` gives, when parsing succeeds.
    pub open spec fn parsed_from(self, s: Seq<u8>) -> bool {
        &&& self.next_header == IpProtocol::from_raw(s[0])
        &&& self.length == s[1]
        &&& self.data@ == s.subrange(2, end_of(s))
    }

    /// Parse an IPv6 extension header over a borrowed buffer, and return a
    /// high-level representation.
    pub fn parse<T: Bytes + ?Sized>(header: &Header<&'a T>) -> (r: Result<Repr<'a>>)
        ensures
            r is Ok <==> len_ok(header.data()),
            r matches Ok(x) ==> x.parsed_from(header.data()),
    {
        Repr::parse_ref(&Header::new_unchecked(Ref::new(T::as_bytes(header.buffer))))
    }

    /// Parse an IPv6 extension header over a [`Ref`], and return a
    /// high-level representation.
    pub fn parse_ref(header: &Header<Ref<'a>>) -> (r: Result<Repr<'a>>)
        ensures
            r is Ok <==> len_ok(header.data()),
            r matches Ok(x) ==> x.parsed_from(header.data()),
    {
        match header.checked_len() {
            Ok(_) => {},
            Err(e) => return Err(e),
        }
        Ok(
            Repr {
                next_header: header.next_header(),
                length: header.header_len(),
                data: header.payload(),
            },
        )
    }

    /// Return the length of the fields this representation writes: the next
    /// header and length octets.
    pub fn header_len(&self) -> (r: usize)
        ensures
            r == 2,
    {
        2
    }

    /// `s` with the next header and length fields written.
    pub open spec fn emit_spec(self, s: Seq<u8>) -> Seq<u8> {
        s.update(0, self.next_header.raw()).update(1, self.length)
    }

    /// Emit a high-level representation into an IPv6 extension header; the
    /// data is the caller's to write.
    pub fn emit<T: BytesMut>(&self, header: &mut Header<T>)
        requires
            old(header).data().len() >= 2,
        ensures
            final(header).data() == self.emit_spec(old(header).data()),
    {
        header.set_next_header(self.next_header);
        header.set_header_len(self.length);
    }
}

/// What parsing any header that parses gives, in terms of its octets: the
/// header is the length octet's count of units of eight octets beyond the
/// first unit, and its data is every octet of it after the next header and
/// length octets, so the data is six octets short of a multiple of eight.
pub proof fn lemma_parse_fields(x: Repr, s: Seq<u8>)
    requires
        len_ok(s),
        x.parsed_from(s),
    ensures
        x.data@.len() + 2 == (s[1] as int + 1) * 8,
        x.data@ =~= s.subrange(2, (s[1] as int + 1) * 8),
        x.next_header.raw() == s[0],
        x.length == s[1],
        (x.data@.len() + 2) % 8 == 0,
{
    IpProtocol::lemma_raw_from_raw(s[0]);
}

/// Parsing a header whose fixed fields were emitted from a representation,
/// and whose data is the representation's, gives back the representation.
pub proof fn lemma_emit_then_parse(r: Repr, s: Seq<u8>)
    requires
        s.len() >= MIN_HEADER_SIZE,
        s.len() >= r.length * 8 + 8,
        s.subrange(2, r.length * 8 + 8) == r.data@,
        r.next_header.is_canonical(),
    ensures
        len_ok(r.emit_spec(s)),
        r.parsed_from(r.emit_spec(s)),
{
    let t = r.emit_spec(s);
    assert(t.subrange(2, end_of(t)) =~= s.subrange(2, r.length * 8 + 8));
}

} // verus!
