//! Byte buffers, big-endian field access, and the spec functions that
//! describe them.

use vstd::prelude::*;

verus! {

// ---------------------------------------------------------------------------
// The model: a buffer is a sequence of octets.
// ---------------------------------------------------------------------------

/// The big-endian 16-bit word at `at`.
pub open spec fn be16(s: Seq<u8>, at: int) -> u16 {
    (s[at] as int * 256 + s[at + 1] as int) as u16
}

/// The big-endian 32-bit word at `at`.
pub open spec fn be32(s: Seq<u8>, at: int) -> u32 {
    (s[at] as int * 16777216 + s[at + 1] as int * 65536 + s[at + 2] as int * 256
        + s[at + 3] as int) as u32
}

/// `s` with `v` written big-endian at `at`.
pub open spec fn put_be16(s: Seq<u8>, at: int, v: u16) -> Seq<u8> {
    s.update(at, (v / 256) as u8).update(at + 1, (v % 256) as u8)
}

/// `s` with `v` written big-endian at `at`.
pub open spec fn put_be32(s: Seq<u8>, at: int, v: u32) -> Seq<u8> {
    s.update(at, (v / 16777216) as u8).update(at + 1, ((v / 65536) % 256) as u8).update(
        at + 2,
        ((v / 256) % 256) as u8,
    ).update(at + 3, (v % 256) as u8)
}

/// `s` with the octets of `src` written from `at` on; the length is kept.
pub open spec fn splice(s: Seq<u8>, at: int, src: Seq<u8>) -> Seq<u8> {
    Seq::new(s.len(), |i: int| if at <= i < at + src.len() { src[i - at] } else { s[i] })
}

/// `s` with the `n` octets from `at` on set to `v`; the length is kept.
pub open spec fn fill(s: Seq<u8>, at: int, n: int, v: u8) -> Seq<u8> {
    Seq::new(s.len(), |i: int| if at <= i < at + n { v } else { s[i] })
}

/// Reading a 16-bit word back gives what was written.
pub proof fn lemma_be16_put(s: Seq<u8>, at: int, v: u16)
    requires
        0 <= at,
        at + 2 <= s.len(),
    ensures
        be16(put_be16(s, at, v), at) == v,
        put_be16(s, at, v).len() == s.len(),
{
}

/// Reading a 32-bit word back gives what was written.
pub proof fn lemma_be32_put(s: Seq<u8>, at: int, v: u32)
    requires
        0 <= at,
        at + 4 <= s.len(),
    ensures
        be32(put_be32(s, at, v), at) == v,
        put_be32(s, at, v).len() == s.len(),
{
    let t = put_be32(s, at, v);
    assert(t[at] == (v / 16777216) as u8);
    assert(t[at + 1] == ((v / 65536) % 256) as u8);
    assert(t[at + 2] == ((v / 256) % 256) as u8);
    assert(t[at + 3] == (v % 256) as u8);
    assert((v / 16777216) * 16777216 + ((v / 65536) % 256) * 65536 + ((v / 256) % 256) * 256
        + v % 256 == v) by (nonlinear_arith);
}

/// Writing the two halves of a 32-bit word, high half first, writes the word.
pub proof fn lemma_put_halves(s: Seq<u8>, at: int, v: u32)
    requires
        0 <= at,
        at + 4 <= s.len(),
    ensures
        put_be16(put_be16(s, at, (v / 65536) as u16), at + 2, (v % 65536) as u16) == put_be32(
            s,
            at,
            v,
        ),
{
    let hi = (v / 65536) as u16;
    let lo = (v % 65536) as u16;
    assert(hi / 256 == v / 16777216) by (nonlinear_arith)
        requires
            hi == v / 65536,
    ;
    assert(lo / 256 == (v / 256) % 256) by (nonlinear_arith)
        requires
            lo == v % 65536,
    ;
    assert(lo % 256 == v % 256) by (nonlinear_arith)
        requires
            lo == v % 65536,
    ;
    assert(put_be16(put_be16(s, at, hi), at + 2, lo) =~= put_be32(s, at, v));
}

/// Reading the two halves of a 32-bit word, high half first, reads the word.
pub proof fn lemma_be32_halves(s: Seq<u8>, at: int)
    requires
        0 <= at,
        at + 4 <= s.len(),
    ensures
        be32(s, at) == be16(s, at) * 65536 + be16(s, at + 2),
{
}

// ---------------------------------------------------------------------------
// Buffers.
// ---------------------------------------------------------------------------

/// A buffer whose contents can be read as a byte slice.
pub trait Bytes {
    /// The octets the buffer holds.
    spec fn bytes(&self) -> Seq<u8>;

    /// Borrow the octets.
    fn as_bytes(&self) -> (r: &[u8])
        ensures
            r@ == self.bytes(),
    ;

    /// The number of octets.
    fn byte_len(&self) -> (n: usize)
        ensures
            n == self.bytes().len(),
    {
        self.as_bytes().len()
    }
}

/// A buffer whose octets can be overwritten in place; its length never changes.
pub trait BytesMut: Bytes {
    /// Overwrite the octet at `i`.
    fn set_byte(&mut self, i: usize, v: u8)
        requires
            i < (*old(self)).bytes().len(),
        ensures
            (*final(self)).bytes() == (*old(self)).bytes().update(i as int, v),
    ;

    /// Write a big-endian 16-bit word at `at`.
    fn set_u16(&mut self, at: usize, v: u16)
        requires
            at + 2 <= (*old(self)).bytes().len(),
        ensures
            (*final(self)).bytes() == put_be16((*old(self)).bytes(), at as int, v),
    {
        let _len = self.byte_len();
        self.set_byte(at, (v / 256) as u8);
        self.set_byte(at + 1, (v % 256) as u8);
    }

    /// Write a big-endian 32-bit word at `at`.
    fn set_u32(&mut self, at: usize, v: u32)
        requires
            at + 4 <= (*old(self)).bytes().len(),
        ensures
            (*final(self)).bytes() == put_be32((*old(self)).bytes(), at as int, v),
    {
        let _len = self.byte_len();
        self.set_byte(at, (v / 16777216) as u8);
        self.set_byte(at + 1, ((v / 65536) % 256) as u8);
        self.set_byte(at + 2, ((v / 256) % 256) as u8);
        self.set_byte(at + 3, (v % 256) as u8);
    }

    /// Copy `src` into the buffer from `at` on.
    fn copy_in(&mut self, at: usize, src: &[u8])
        requires
            at + src@.len() <= (*old(self)).bytes().len(),
        ensures
            (*final(self)).bytes() == splice((*old(self)).bytes(), at as int, src@),
    {
        let ghost s0 = self.bytes();
        let _len = self.byte_len();
        let n = src.len();
        let mut i: usize = 0;
        while i < n
            invariant
                n == src@.len(),
                at + n <= s0.len(),
                s0.len() <= usize::MAX,
                i <= n,
                self.bytes() == splice(s0, at as int, src@.subrange(0, i as int)),
            decreases n - i,
        {
            self.set_byte(at + i, src[i]);
            i = i + 1;
            assert(self.bytes() =~= splice(s0, at as int, src@.subrange(0, i as int)));
        }
        assert(src@.subrange(0, n as int) =~= src@);
    }
}

/// A buffer that can lend its octets out as one mutable slice.
pub trait BytesSliceMut: BytesMut {
    /// Borrow the octets mutably; what is written through the borrow is what
    /// the buffer then holds.
    fn as_bytes_mut(&mut self) -> (r: &mut [u8])
        ensures
            r@ == (*old(self)).bytes(),
            (*final(self)).bytes() == final(r)@,
    ;
}

impl Bytes for [u8] {
    open spec fn bytes(&self) -> Seq<u8> {
        self@
    }

    fn as_bytes(&self) -> (r: &[u8]) {
        self
    }
}

impl BytesMut for [u8] {
    fn set_byte(&mut self, i: usize, v: u8) {
        self[i] = v;
    }
}

impl BytesSliceMut for [u8] {
    fn as_bytes_mut(&mut self) -> (r: &mut [u8]) {
        self
    }
}

impl<const N: usize> Bytes for [u8; N] {
    open spec fn bytes(&self) -> Seq<u8> {
        self@
    }

    fn as_bytes(&self) -> (r: &[u8]) {
        self.as_slice()
    }
}

impl<const N: usize> BytesMut for [u8; N] {
    fn set_byte(&mut self, i: usize, v: u8) {
        self[i] = v;
    }
}

impl<const N: usize> BytesSliceMut for [u8; N] {
    fn as_bytes_mut(&mut self) -> (r: &mut [u8]) {
        self
    }
}

impl Bytes for Vec<u8> {
    open spec fn bytes(&self) -> Seq<u8> {
        self@
    }

    fn as_bytes(&self) -> (r: &[u8]) {
        self.as_slice()
    }
}

impl BytesMut for Vec<u8> {
    fn set_byte(&mut self, i: usize, v: u8) {
        self.set(i, v);
    }
}

impl BytesSliceMut for Vec<u8> {
    fn as_bytes_mut(&mut self) -> (r: &mut [u8]) {
        self.as_mut_slice()
    }
}

impl<'a, B: Bytes + ?Sized> Bytes for &'a B {
    open spec fn bytes(&self) -> Seq<u8> {
        (**self).bytes()
    }

    fn as_bytes(&self) -> (r: &[u8]) {
        (**self).as_bytes()
    }
}

impl<'a, B: Bytes + ?Sized> Bytes for &'a mut B {
    open spec fn bytes(&self) -> Seq<u8> {
        (**self).bytes()
    }

    fn as_bytes(&self) -> (r: &[u8]) {
        (**self).as_bytes()
    }
}

impl<'a, B: BytesMut + ?Sized> BytesMut for &'a mut B {
    fn set_byte(&mut self, i: usize, v: u8) {
        (**self).set_byte(i, v);
    }
}

impl<'a, B: BytesSliceMut + ?Sized> BytesSliceMut for &'a mut B {
    fn as_bytes_mut(&mut self) -> (r: &mut [u8]) {
        (**self).as_bytes_mut()
    }
}

// ---------------------------------------------------------------------------
// Big-endian access on slices.
// ---------------------------------------------------------------------------

/// Read a big-endian `u16` at `at`.
pub fn read_u16_at(data: &[u8], at: usize) -> (r: u16)
    requires
        at + 2 <= data@.len(),
    ensures
        r == be16(data@, at as int),
{
    (data[at] as u16) * 256 + (data[at + 1] as u16)
}

/// Write a big-endian `u16` at `at`.
pub fn write_u16_at(data: &mut [u8], at: usize, value: u16)
    requires
        at + 2 <= old(data)@.len(),
    ensures
        final(data)@ == put_be16(old(data)@, at as int, value),
{
    data[at] = (value / 256) as u8;
    data[at + 1] = (value % 256) as u8;
}

/// Read a big-endian `u32` at `at`.
pub fn read_u32_at(data: &[u8], at: usize) -> (r: u32)
    requires
        at + 4 <= data@.len(),
    ensures
        r == be32(data@, at as int),
{
    (data[at] as u32) * 16777216 + (data[at + 1] as u32) * 65536 + (data[at + 2] as u32) * 256
        + (data[at + 3] as u32)
}

/// Write a big-endian `u32` at `at`.
pub fn write_u32_at(data: &mut [u8], at: usize, value: u32)
    requires
        at + 4 <= old(data)@.len(),
    ensures
        final(data)@ == put_be32(old(data)@, at as int, value),
{
    data[at] = (value / 16777216) as u8;
    data[at + 1] = ((value / 65536) % 256) as u8;
    data[at + 2] = ((value / 256) % 256) as u8;
    data[at + 3] = (value % 256) as u8;
}

/// The two's-complement reading of a 32-bit word.
pub open spec fn as_i32(w: u32) -> i32 {
    (if w < 0x8000_0000 { w as int } else { w as int - 0x1_0000_0000 }) as i32
}

/// The two's-complement encoding of a 32-bit signed value.
pub open spec fn as_u32(v: i32) -> u32 {
    (if v >= 0 { v as int } else { v as int + 0x1_0000_0000 }) as u32
}

/// Read a big-endian `i32` at `at`.
pub fn read_i32_at(data: &[u8], at: usize) -> (r: i32)
    requires
        at + 4 <= data@.len(),
    ensures
        r == as_i32(be32(data@, at as int)),
{
    let w = read_u32_at(data, at);
    if w < 0x8000_0000 {
        w as i32
    } else {
        ((w - 0x8000_0000) as i32) - 0x4000_0000 - 0x4000_0000
    }
}

/// Write a big-endian `i32` at `at`.
pub fn write_i32_at(data: &mut [u8], at: usize, value: i32)
    requires
        at + 4 <= old(data)@.len(),
    ensures
        final(data)@ == put_be32(old(data)@, at as int, as_u32(value)),
{
    let w: u32 = if value >= 0 {
        value as u32
    } else {
        ((value + 0x4000_0000 + 0x4000_0000) as u32) + 0x8000_0000
    };
    write_u32_at(data, at, w);
}

/// `s` with the low 24 bits of `v` written big-endian at `at`.
pub open spec fn put_be24(s: Seq<u8>, at: int, v: u32) -> Seq<u8> {
    s.update(at, ((v / 65536) % 256) as u8).update(at + 1, ((v / 256) % 256) as u8).update(
        at + 2,
        (v % 256) as u8,
    )
}

/// Write a big-endian 24-bit value at `at`.
pub fn write_u24_at(data: &mut [u8], at: usize, value: u32)
    requires
        at + 3 <= old(data)@.len(),
        value < 0x100_0000,
    ensures
        final(data)@ == put_be24(old(data)@, at as int, value),
{
    data[at] = ((value / 65536) % 256) as u8;
    data[at + 1] = ((value / 256) % 256) as u8;
    data[at + 2] = (value % 256) as u8;
}

/// Copy a 4-octet address into `data` at `at`.
pub fn write_octets4_at(data: &mut [u8], at: usize, octets: &[u8; 4])
    requires
        at + 4 <= old(data)@.len(),
    ensures
        final(data)@ == splice(old(data)@, at as int, octets@),
{
    copy_window_at(data, at, 4, octets.as_slice());
}

/// Copy a 16-octet address into `data` at `at`.
pub fn write_octets16_at(data: &mut [u8], at: usize, octets: &[u8; 16])
    requires
        at + 16 <= old(data)@.len(),
    ensures
        final(data)@ == splice(old(data)@, at as int, octets@),
{
    copy_window_at(data, at, 16, octets.as_slice());
}

/// The length of `s` as the 32-bit field that carries it, modulo 2^32.
pub open spec fn len32(s: Seq<u8>) -> u32 {
    s.len() as u32
}

/// The length of `data` as a 32-bit field, modulo 2^32.
pub fn upper_len(data: &[u8]) -> (r: u32)
    ensures
        r == len32(data@),
{
    data.len() as u32
}

/// The low sixteen bits of a count.
pub fn low16(n: usize) -> (r: u16)
    ensures
        r == n % 65536,
{
    (n % 65536) as u16
}

/// Borrow the first `n` octets of `data`.
pub fn prefix(data: &[u8], n: usize) -> (r: &[u8])
    requires
        n <= data@.len(),
    ensures
        r@ == data@.subrange(0, n as int),
{
    &data[0..n]
}

/// Borrow `n` octets of `data` starting at `at`.
pub fn sub(data: &[u8], at: usize, n: usize) -> (r: &[u8])
    requires
        at + n <= data@.len(),
    ensures
        r@ == data@.subrange(at as int, at + n),
{
    let _len = data.len();
    &data[at..at + n]
}

/// Borrow the tail of `data` from `at`.
pub fn tail(data: &[u8], at: usize) -> (r: &[u8])
    requires
        at <= data@.len(),
    ensures
        r@ == data@.subrange(at as int, data@.len() as int),
{
    &data[at..data.len()]
}

/// Copy `src` into the `len`-octet window of `data` at `at`.
pub fn copy_window_at(data: &mut [u8], at: usize, len: usize, src: &[u8])
    requires
        at + len <= old(data)@.len(),
        src@.len() == len,
    ensures
        final(data)@ == splice(old(data)@, at as int, src@),
{
    let ghost s0 = data@;
    let _n = data.len();
    let mut i: usize = 0;
    while i < len
        invariant
            s0.len() <= usize::MAX,
            len == src@.len(),
            at + len <= s0.len(),
            i <= len,
            data@ == splice(s0, at as int, src@.subrange(0, i as int)),
        decreases len - i,
    {
        data[at + i] = src[i];
        i = i + 1;
        assert(data@ =~= splice(s0, at as int, src@.subrange(0, i as int)));
    }
    assert(src@.subrange(0, len as int) =~= src@);
}

/// Copy `src` into `data` from `at` to its end.
pub fn copy_suffix_at(data: &mut [u8], at: usize, src: &[u8])
    requires
        at + src@.len() == old(data)@.len(),
    ensures
        final(data)@ == splice(old(data)@, at as int, src@),
{
    let n = src.len();
    copy_window_at(data, at, n, src);
}

// ---------------------------------------------------------------------------
// Windows.
// ---------------------------------------------------------------------------

/// A shared byte-slice window.
#[derive(Clone, Copy, Debug, PartialEq, Eq)]
pub struct Ref<'a> {
    inner: &'a [u8],
}

impl<'a> Ref<'a> {
    /// The octets in view.
    pub closed spec fn view_bytes(&self) -> Seq<u8> {
        self.inner@
    }

    /// Wrap a slice.
    pub fn new(inner: &'a [u8]) -> (r: Ref<'a>)
        ensures
            r.view_bytes() == inner@,
    {
        Ref { inner }
    }

    /// The window `start..end`, with the buffer's lifetime.
    pub fn window(self, start: usize, end: usize) -> (r: &'a [u8])
        requires
            start <= end <= self.view_bytes().len(),
        ensures
            r@ == self.view_bytes().subrange(start as int, end as int),
    {
        &self.inner[start..end]
    }

    /// The whole window, with the buffer's lifetime.
    pub fn as_slice(self) -> (r: &'a [u8])
        ensures
            r@ == self.view_bytes(),
    {
        self.inner
    }
}

impl<'a> AsRef<[u8]> for Ref<'a> {
    /// The octets in view.
    fn as_ref(&self) -> (r: &[u8])
        ensures
            r@ == self.view_bytes(),
    {
        self.inner
    }
}

impl<'a> Bytes for Ref<'a> {
    open spec fn bytes(&self) -> Seq<u8> {
        self.view_bytes()
    }

    fn as_bytes(&self) -> (r: &[u8]) {
        self.inner
    }
}

/// A mutable byte buffer that views the tail of a slice from an offset on.
pub struct Buf<'a> {
    inner: &'a mut [u8],
    offset: usize,
}

impl<'a> Buf<'a> {
    /// Where the view starts; an offset past the end views nothing.
    closed spec fn start(&self) -> int {
        if self.offset <= self.inner@.len() {
            self.offset as int
        } else {
            self.inner@.len() as int
        }
    }

    /// The octets in view: those from the offset on.
    pub closed spec fn view_bytes(&self) -> Seq<u8> {
        self.inner@.subrange(self.start(), self.inner@.len() as int)
    }

    closed spec fn inner_len(&self) -> int {
        self.inner@.len() as int
    }

    fn start_exec(&self) -> (r: (usize, usize))
        ensures
            r.0 == self.start(),
            r.1 == self.inner_len(),
    {
        let n = self.inner.len();
        if self.offset <= n {
            (self.offset, n)
        } else {
            (n, n)
        }
    }

    /// Wrap a mutable byte slice whole.
    pub fn new(inner: &'a mut [u8]) -> (r: Buf<'a>)
        ensures
            r.view_bytes() == old(inner)@,
    {
        let b = Buf { inner, offset: 0 };
        assert(b.inner@.subrange(0, b.inner@.len() as int) =~= b.inner@);
        b
    }

    /// Wrap the tail of a mutable byte slice, starting at `offset`.
    pub fn with_offset(inner: &'a mut [u8], offset: usize) -> (r: Buf<'a>)
        requires
            offset <= old(inner)@.len(),
        ensures
            r.view_bytes() == old(inner)@.subrange(offset as int, old(inner)@.len() as int),
    {
        Buf { inner, offset }
    }

    /// Reborrow this buffer for a shorter while, with the same view.
    pub fn reborrow(&mut self) -> (r: Buf<'_>)
        ensures
            r.view_bytes() == old(self).view_bytes(),
    {
        Buf { inner: &mut *self.inner, offset: self.offset }
    }

    /// Copy `src` into this buffer starting at `at` octets past its start.
    pub fn copy_at(&mut self, at: usize, src: &[u8])
        requires
            at + src@.len() <= old(self).view_bytes().len(),
        ensures
            final(self).view_bytes() == splice(old(self).view_bytes(), at as int, src@),
    {
        self.copy_in(at, src);
    }

    /// Advance past `n` octets, which the caller has finished with.
    pub fn advance(&mut self, n: usize)
        requires
            n <= old(self).view_bytes().len(),
        ensures
            final(self).view_bytes() == old(self).view_bytes().subrange(
                n as int,
                old(self).view_bytes().len() as int,
            ),
    {
        let (start, _len) = self.start_exec();
        self.offset = start + n;
        assert(self.view_bytes() =~= old(self).view_bytes().subrange(
            n as int,
            old(self).view_bytes().len() as int,
        ));
    }
}

impl<'a> AsRef<[u8]> for Buf<'a> {
    /// The octets in view.
    fn as_ref(&self) -> (r: &[u8])
        ensures
            r@ == self.view_bytes(),
    {
        let (start, n) = self.start_exec();
        &self.inner[start..n]
    }
}

impl<'a> Bytes for Buf<'a> {
    open spec fn bytes(&self) -> Seq<u8> {
        self.view_bytes()
    }

    fn as_bytes(&self) -> (r: &[u8]) {
        let (start, n) = self.start_exec();
        &self.inner[start..n]
    }
}

impl<'a> BytesMut for Buf<'a> {
    fn set_byte(&mut self, i: usize, v: u8) {
        let (start, _len) = self.start_exec();
        let at = start + i;
        self.inner[at] = v;
        assert(self.view_bytes() =~= old(self).view_bytes().update(i as int, v));
    }
}

} // verus!
