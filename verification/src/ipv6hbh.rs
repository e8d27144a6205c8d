//! The IPv6 Hop-by-Hop Options header.

use vstd::prelude::*;
use crate::buf::{splice, Bytes, BytesSliceMut, Buf};
use crate::error::{Error, Result};
use crate::ipv6option::{Ipv6Option, Ipv6OptionsIterator, Repr as Ipv6OptionRepr, RouterAlert};
use crate::ipv6option::parse_ok as option_parse_ok;

verus! {

/// The most options a hop-by-hop representation holds.
pub const IPV6_HBH_MAX_OPTIONS: usize = 4;

/// `heapless::Vec`, a vector with a fixed capacity that lives inline.
#[verifier::external_type_specification]
#[verifier::external_body]
#[verifier::reject_recursive_types(T)]
pub struct ExHeaplessVec<T, const N: usize>(heapless::Vec<T, N>);

/// The options a bounded vector of options holds, in order.
pub uninterp spec fn options_of(v: heapless::Vec<Ipv6OptionRepr, 4>) -> Seq<Ipv6OptionRepr>;

/// `heapless::Vec::new`: an empty vector.
#[verifier::external_body]
fn new_options<'a>() -> (r: heapless::Vec<Ipv6OptionRepr<'a>, 4>)
    ensures
        options_of(r) == Seq::<Ipv6OptionRepr<'a>>::empty(),
{
    heapless::Vec::new()
}

/// `heapless::Vec::push`: appends the item when the vector holds fewer than
/// its capacity of four, and otherwise hands the item back and leaves the
/// vector as it was.
#[verifier::external_body]
fn push_option<'a>(
    v: &mut heapless::Vec<Ipv6OptionRepr<'a>, 4>,
    item: Ipv6OptionRepr<'a>,
) -> (r: core::result::Result<(), Ipv6OptionRepr<'a>>)
    ensures
        options_of(*old(v)).len() < 4 ==> r is Ok && options_of(*final(v)) == options_of(*old(v)).push(item),
        options_of(*old(v)).len() >= 4 ==> (r matches Err(x) && x == item) && options_of(*final(v)) == options_of(*old(v)),
{
    v.push(item)
}

/// `heapless::Vec::as_slice`: the items, in order; never more than the
/// capacity of four.
#[verifier::external_body]
fn options_slice<'a, 'b>(
    v: &'b heapless::Vec<Ipv6OptionRepr<'a>, 4>,
) -> (r: &'b [Ipv6OptionRepr<'a>])
    ensures
        r@ == options_of(*v),
        r@.len() <= 4,
{
    v.as_slice()
}

/// A read/write wrapper around an IPv6 Hop-by-Hop Header buffer.
pub struct Header<T> {
    buffer: T,
}

impl<T> Header<T> {
    /// The buffer underneath.
    pub closed spec fn inner(&self) -> T {
        self.buffer
    }

    /// Create a raw octet buffer with an IPv6 Hop-by-Hop Header structure.
    pub fn new_unchecked(buffer: T) -> (r: Header<T>)
        ensures
            r.inner() == buffer,
    {
        Header { buffer }
    }

    /// Consume the header, returning the underlying buffer.
    pub fn into_inner(self) -> (r: T)
        ensures
            r == self.inner(),
    {
        self.buffer
    }
}

impl<T: Bytes> Header<T> {
    /// The octets of the header's options.
    pub open spec fn data(&self) -> Seq<u8> {
        self.inner().bytes()
    }

    /// Shorthand for a combination of [`Header::new_unchecked`] and [`Header::check_len`].
    pub fn new_checked(buffer: T) -> (r: Result<Header<T>>)
        ensures
            r is Ok <==> buffer.bytes().len() >= 1,
            r matches Ok(h) ==> h.inner() == buffer,
    {
        let header = Self::new_unchecked(buffer);
        match header.check_len() {
            Ok(()) => Ok(header),
            Err(e) => Err(e),
        }
    }

    /// Ensure that no accessor method will panic if called.
    /// Returns `Err(Error)` if the buffer is empty.
    pub fn check_len(&self) -> (r: Result<()>)
        ensures
            r is Ok <==> self.data().len() >= 1,
    {
        if self.buffer.byte_len() == 0 {
            return Err(Error);
        }
        Ok(())
    }
}

impl<'a, B: Bytes + ?Sized> Header<&'a B> {
    /// Return the options of the header, with the buffer's lifetime.
    pub fn options(&self) -> (r: &'a [u8])
        ensures
            r@ == self.data(),
    {
        B::as_bytes(self.buffer)
    }
}

impl<T: BytesSliceMut> Header<T> {
    /// Return a mutable pointer to the options of the header.
    pub fn options_mut(&mut self) -> (r: &mut [u8])
        ensures
            r@ == old(self).data(),
            final(self).data() == final(r)@,
    {
        self.buffer.as_bytes_mut()
    }

    /// The options of the header as a [`Buf`].
    pub fn options_buf(&mut self) -> (r: Buf<'_>)
        ensures
            r.view_bytes() == old(self).data(),
    {
        Buf::new(self.buffer.as_bytes_mut())
    }
}

/// The octets of `s` from `at` to its end.
pub open spec fn from_on(s: Seq<u8>, at: int) -> Seq<u8> {
    s.subrange(at, s.len() as int)
}

/// The length of the option at the start of `s`.
pub open spec fn option_len(s: Seq<u8>) -> int {
    if s[0] == 0 {
        1
    } else {
        s[1] + 2
    }
}

/// Where the option numbered `i`, from zero, starts among the options in `s`.
pub open spec fn option_at(s: Seq<u8>, i: nat) -> int
    decreases i,
{
    if i == 0 {
        0
    } else {
        let p = option_at(s, (i - 1) as nat);
        p + option_len(from_on(s, p))
    }
}

/// The walk over the options in `s`, from the option numbered `i` on, meets
/// the end of `s`, or parses a fifth option, with every option it passes
/// well formed.
pub open spec fn walk_ok(s: Seq<u8>, i: nat) -> bool
    decreases 4 - i,
{
    let p = option_at(s, i);
    if p >= s.len() {
        true
    } else if !option_parse_ok(from_on(s, p)) {
        false
    } else if i >= 4 {
        true
    } else {
        walk_ok(s, i + 1)
    }
}

/// How many options the walk over `s` keeps from the option numbered `i` on:
/// those before the end of `s`, up to four in all.
pub open spec fn walk_count(s: Seq<u8>, i: nat) -> nat
    decreases 4 - i,
{
    let p = option_at(s, i);
    if p >= s.len() || i >= 4 {
        0
    } else {
        1 + walk_count(s, i + 1)
    }
}

/// The total length of a sequence of options.
pub open spec fn options_len(ops: Seq<Ipv6OptionRepr>) -> int
    decreases ops.len(),
{
    if ops.len() == 0 {
        0
    } else {
        options_len(ops.drop_last()) + ops.last().buffer_len_spec()
    }
}

/// `s` with the options emitted one after the other from its start.
pub open spec fn emit_all(ops: Seq<Ipv6OptionRepr>, s: Seq<u8>) -> Seq<u8>
    decreases ops.len(),
{
    if ops.len() == 0 {
        s
    } else {
        let prev = emit_all(ops.drop_last(), s);
        let p = options_len(ops.drop_last());
        let n = ops.last().buffer_len_spec();
        splice(prev, p, ops.last().emit_spec(prev.subrange(p, p + n)))
    }
}

/// An option that parses has the length its first octets declare.
proof fn lemma_parsed_len(x: Ipv6OptionRepr, s: Seq<u8>)
    requires
        option_parse_ok(s),
        x.parsed_from(s),
    ensures
        x.buffer_len_spec() == option_len(s),
        1 <= option_len(s) <= s.len(),
{
}

/// A high-level representation of an IPv6 Hop-by-Hop Header.
#[derive(Debug, PartialEq, Eq)]
pub struct Repr<'a> {
    options: heapless::Vec<Ipv6OptionRepr<'a>, 4>,
}

impl<'a> Clone for Repr<'a> {
    /// A representation holding the same options.
    fn clone(&self) -> (r: Repr<'a>)
        ensures
            r.options_spec() == self.options_spec(),
    {
        let ops = self.options();
        let n = ops.len();
        let mut options = new_options();
        let mut i: usize = 0;
        while i < n
            invariant
                n == ops@.len(),
                n <= 4,
                i <= n,
                options_of(options) == ops@.subrange(0, i as int),
            decreases n - i,
        {
            let _ = push_option(&mut options, ops[i]);
            assert(options_of(options) =~= ops@.subrange(0, i + 1 as int));
            i = i + 1;
        }
        assert(ops@.subrange(0, n as int) =~= ops@);
        Repr { options }
    }
}

impl<'a> Repr<'a> {
    /// The options, in order.
    pub closed spec fn options_spec(&self) -> Seq<Ipv6OptionRepr<'a>> {
        options_of(self.options)
    }

    /// Parse an IPv6 Hop-by-Hop Header and return a high-level
    /// representation: its first four options, and the fifth parsed too but
    /// not kept.
    pub fn parse<T: Bytes + ?Sized>(header: &'a Header<&'a T>) -> (r: Result<Repr<'a>>)
        ensures
            r is Ok <==> header.data().len() >= 1 && walk_ok(header.data(), 0),
            r matches Ok(x) ==> x.options_spec().len() == walk_count(header.data(), 0)
                && forall|j: int|
                #![trigger x.options_spec()[j]]
                0 <= j < x.options_spec().len() ==> x.options_spec()[j].parsed_from(
                    from_on(header.data(), option_at(header.data(), j as nat)),
                ),
    {
        match header.check_len() {
            Ok(()) => {},
            Err(e) => return Err(e),
        }
        let ghost s = header.data();
        let mut options = new_options();
        let mut iter = Ipv6OptionsIterator::new(header.options());
        loop
            invariant_except_break
                s == header.data(),
                s.len() >= 1,
                iter.octets() == s,
                !iter.stopped(),
                iter.position() <= s.len(),
                options_of(options).len() <= 4,
                iter.position() == option_at(s, options_of(options).len()),
                walk_ok(s, 0) == walk_ok(s, options_of(options).len()),
                walk_count(s, 0) == options_of(options).len() + walk_count(
                    s,
                    options_of(options).len(),
                ),
                forall|j: int|
                    #![trigger options_of(options)[j]]
                    0 <= j < options_of(options).len() ==> options_of(options)[j].parsed_from(
                        from_on(s, option_at(s, j as nat)),
                    ),
            ensures
                walk_ok(s, 0),
                options_of(options).len() == walk_count(s, 0),
                forall|j: int|
                    #![trigger options_of(options)[j]]
                    0 <= j < options_of(options).len() ==> options_of(options)[j].parsed_from(
                        from_on(s, option_at(s, j as nat)),
                    ),
            decreases s.len() - iter.position(),
        {
            let ghost k = options_of(options).len();
            let ghost p = iter.position();
            match iter.next() {
                None => {
                    proof {
                        assert(p >= s.len());
                        assert(walk_ok(s, k));
                        assert(walk_count(s, k) == 0);
                    }
                    break;
                },
                Some(Err(e)) => {
                    proof {
                        assert(!option_parse_ok(from_on(s, p as int)));
                        assert(!walk_ok(s, k));
                    }
                    return Err(e);
                },
                Some(Ok(option)) => {
                    proof {
                        lemma_parsed_len(option, from_on(s, p as int));
                    }
                    match push_option(&mut options, option) {
                        Ok(()) => {},
                        Err(_) => {
                            proof {
                                assert(k == 4);
                                assert(walk_ok(s, k));
                                assert(walk_count(s, k) == 0);
                            }
                            break;
                        },
                    }
                },
            }
        }
        Ok(Repr { options })
    }

    /// Create a representation holding the given options.
    pub fn new(options: heapless::Vec<Ipv6OptionRepr<'a>, 4>) -> (r: Repr<'a>)
        ensures
            r.options_spec() == options_of(options),
    {
        Repr { options }
    }

    /// Return the options, in order.
    pub fn options(&self) -> (r: &[Ipv6OptionRepr<'a>])
        ensures
            r@ == self.options_spec(),
            r@.len() <= 4,
    {
        options_slice(&self.options)
    }

    /// The length of the header this representation is emitted as.
    pub open spec fn buffer_len_spec(&self) -> int {
        options_len(self.options_spec())
    }

    /// Return the length, in octets, of the options this representation is
    /// emitted as.
    pub fn buffer_len(&self) -> (r: usize)
        ensures
            r == self.buffer_len_spec(),
    {
        let ops = self.options();
        let n = ops.len();
        let mut sum: usize = 0;
        let mut i: usize = 0;
        while i < n
            invariant
                n == ops@.len(),
                n <= 4,
                i <= n,
                sum == options_len(ops@.subrange(0, i as int)),
                sum <= 257 * i,
            decreases n - i,
        {
            assert(ops@.subrange(0, i + 1 as int).drop_last() =~= ops@.subrange(0, i as int));
            sum = sum + ops[i].buffer_len();
            i = i + 1;
        }
        assert(ops@.subrange(0, n as int) =~= ops@);
        sum
    }

    /// Emit a high-level representation into an IPv6 Hop-by-Hop Header: the
    /// options one after the other from its start.
    pub fn emit<T: BytesSliceMut>(&self, header: &mut Header<T>)
        requires
            self.buffer_len_spec() <= old(header).data().len(),
            forall|j: int|
                0 <= j < self.options_spec().len() ==> #[trigger] self.options_spec()[j].emittable(),
        ensures
            final(header).data() == emit_all(self.options_spec(), old(header).data()),
    {
        let ghost s0 = header.data();
        let ops = self.options();
        let n = ops.len();
        let data = header.options_mut();
        let dlen = data.len();
        let mut pos: usize = 0;
        let mut i: usize = 0;
        while i < n
            invariant
                n == ops@.len(),
                ops@ == self.options_spec(),
                n <= 4,
                i <= n,
                pos == options_len(ops@.subrange(0, i as int)),
                options_len(ops@) <= data@.len(),
                data@.len() == s0.len(),
                dlen == data@.len(),
                data@ == emit_all(ops@.subrange(0, i as int), s0),
                forall|j: int| 0 <= j < ops@.len() ==> #[trigger] ops@[j].emittable(),
            decreases n - i,
        {
            let opt = &ops[i];
            let len = opt.buffer_len();
            proof {
                assert(ops@.subrange(0, i + 1 as int).drop_last() =~= ops@.subrange(0, i as int));
                assert(options_len(ops@.subrange(0, i + 1 as int)) == pos + len);
                lemma_options_len_prefix(ops@, i as int + 1);
            }
            let mut window = Ipv6Option::new_unchecked(
                vstd::slice::slice_to_vec(crate::buf::sub(data, pos, len)),
            );
            opt.emit(&mut window);
            let emitted = window.into_inner();
            crate::buf::copy_window_at(data, pos, len, emitted.as_slice());
            pos = pos + len;
            i = i + 1;
        }
        assert(ops@.subrange(0, n as int) =~= ops@);
    }

    /// The header that carries the single Router Alert option of an MLDv2
    /// message.
    pub fn mldv2_router_alert() -> (r: Repr<'a>)
        ensures
            r.options_spec() == seq![
                Ipv6OptionRepr::RouterAlert(RouterAlert::MulticastListenerDiscovery),
            ],
    {
        let mut options = new_options();
        let _ = push_option(
            &mut options,
            Ipv6OptionRepr::RouterAlert(RouterAlert::MulticastListenerDiscovery),
        );
        Repr { options }
    }

    /// Append a PadN option of `n` octets of data.
    pub fn push_padn_option(&mut self, n: u8)
        requires
            old(self).options_spec().len() < 4,
        ensures
            final(self).options_spec() == old(self).options_spec().push(Ipv6OptionRepr::PadN(n)),
    {
        let _ = push_option(&mut self.options, Ipv6OptionRepr::PadN(n));
    }
}

/// The options before the `k`-th add up to no more than all of them.
proof fn lemma_options_len_prefix(ops: Seq<Ipv6OptionRepr>, k: int)
    requires
        0 <= k <= ops.len(),
    ensures
        options_len(ops.subrange(0, k)) <= options_len(ops),
        0 <= options_len(ops.subrange(0, k)),
    decreases ops.len() - k,
{
    if k < ops.len() {
        lemma_options_len_prefix(ops, k + 1);
        assert(ops.subrange(0, k + 1).drop_last() =~= ops.subrange(0, k));
    } else {
        assert(ops.subrange(0, k) =~= ops);
    }
    lemma_options_len_nonneg(ops.subrange(0, k));
}

/// A total length is never negative.
proof fn lemma_options_len_nonneg(ops: Seq<Ipv6OptionRepr>)
    ensures
        options_len(ops) >= 0,
    decreases ops.len(),
{
    if ops.len() > 0 {
        lemma_options_len_nonneg(ops.drop_last());
    }
}

/// Every option emits over as many octets as it takes, when it can be
/// emitted.
proof fn lemma_option_emit_len(x: Ipv6OptionRepr, w: Seq<u8>)
    requires
        w.len() >= x.buffer_len_spec(),
        x.emittable(),
    ensures
        x.emit_spec(w).len() == w.len(),
{
}

/// Emitting the options keeps the length of the buffer.
proof fn lemma_emit_all_len(ops: Seq<Ipv6OptionRepr>, s: Seq<u8>)
    requires
        options_len(ops) <= s.len(),
        forall|j: int| 0 <= j < ops.len() ==> #[trigger] ops[j].emittable(),
    ensures
        emit_all(ops, s).len() == s.len(),
    decreases ops.len(),
{
    if ops.len() > 0 {
        let prev = ops.drop_last();
        lemma_options_len_nonneg(prev);
        assert forall|j: int| 0 <= j < prev.len() implies #[trigger] prev[j].emittable() by {
            assert(prev[j] == ops[j]);
        }
        lemma_emit_all_len(prev, s);
        let p = options_len(prev);
        let n = ops.last().buffer_len_spec();
        assert(ops.last().emittable());
        lemma_option_emit_len(ops.last(), emit_all(prev, s).subrange(p, p + n));
    }
}

/// The option numbered `k` sits, emitted, where the options before it end,
/// whatever options are emitted after it.
proof fn lemma_emit_all_window(ops: Seq<Ipv6OptionRepr>, s: Seq<u8>, k: int)
    requires
        0 <= k < ops.len(),
        options_len(ops) <= s.len(),
        forall|j: int| 0 <= j < ops.len() ==> #[trigger] ops[j].emittable(),
    ensures
        ({
            let p = options_len(ops.subrange(0, k));
            let n = ops[k].buffer_len_spec();
            emit_all(ops, s).subrange(p, p + n) == ops[k].emit_spec(
                emit_all(ops.subrange(0, k), s).subrange(p, p + n),
            )
        }),
    decreases ops.len(),
{
    let prev = ops.drop_last();
    lemma_options_len_nonneg(prev);
    assert forall|j: int| 0 <= j < prev.len() implies #[trigger] prev[j].emittable() by {
        assert(prev[j] == ops[j]);
    }
    lemma_emit_all_len(prev, s);
    let p = options_len(ops.subrange(0, k));
    let n = ops[k].buffer_len_spec();
    let q = options_len(prev);
    let m = ops.last().buffer_len_spec();
    let t = emit_all(ops, s);
    let u = emit_all(prev, s);
    lemma_option_emit_len(ops.last(), u.subrange(q, q + m));
    if k == ops.len() - 1 {
        assert(ops.subrange(0, k) =~= prev);
        assert(t.subrange(p, p + n) =~= ops[k].emit_spec(u.subrange(p, p + n)));
    } else {
        lemma_emit_all_window(prev, s, k);
        assert(prev.subrange(0, k) =~= ops.subrange(0, k));
        assert(prev[k] == ops[k]);
        lemma_options_len_prefix(prev, k + 1);
        assert(prev.subrange(0, k + 1).drop_last() =~= prev.subrange(0, k));
        assert(prev.subrange(0, k + 1).last() == ops[k]);
        assert(options_len(prev.subrange(0, k + 1)) == p + n);
        lemma_options_len_nonneg(ops.subrange(0, k));
        assert(p + n <= q);
        assert(t.subrange(p, p + n) =~= u.subrange(p, p + n));
    }
}

/// An option that parses on its own still parses, to the same
/// representation, with more octets after it.
proof fn lemma_option_in_place(e: Seq<u8>, q: Seq<u8>, x: Ipv6OptionRepr)
    requires
        e.len() <= q.len(),
        q.subrange(0, e.len() as int) == e,
        option_parse_ok(e),
        x.parsed_from(e),
        x.buffer_len_spec() == e.len(),
    ensures
        option_parse_ok(q),
        x.parsed_from(q),
        option_len(q) == e.len(),
{
    let end = e.len() as int;
    assert forall|i: int| 0 <= i < end implies q[i] == e[i] by {
        assert(q.subrange(0, end)[i] == q[i]);
    }
    if end >= 2 {
        assert(q.subrange(2, end) =~= e.subrange(2, end));
    }
}

/// The options emitted one after the other into a buffer of just their
/// length are found by the walk where they were put, each parsing back.
proof fn lemma_walk_emitted(ops: Seq<Ipv6OptionRepr>, s: Seq<u8>, k: nat)
    requires
        s.len() == options_len(ops),
        ops.len() <= 4,
        k <= ops.len(),
        forall|j: int|
            0 <= j < ops.len() ==> (#[trigger] ops[j]).emittable()
                && crate::ipv6option::emit_parses_back(ops[j]),
    ensures
        option_at(emit_all(ops, s), k) == options_len(ops.subrange(0, k as int)),
        forall|j: int|
            0 <= j < k ==> (#[trigger] ops[j]).parsed_from(
                from_on(emit_all(ops, s), option_at(emit_all(ops, s), j as nat)),
            ) && option_parse_ok(from_on(emit_all(ops, s), option_at(emit_all(ops, s), j as nat))),
    decreases k,
{
    let t = emit_all(ops, s);
    lemma_emit_all_len(ops, s);
    if k == 0 {
        assert(ops.subrange(0, 0) =~= Seq::<Ipv6OptionRepr>::empty());
    } else {
        let i = (k - 1) as nat;
        lemma_walk_emitted(ops, s, i);
        let p = options_len(ops.subrange(0, i as int));
        let x = ops[i as int];
        let n = x.buffer_len_spec();
        lemma_options_len_prefix(ops, k as int);
        assert(ops.subrange(0, k as int).drop_last() =~= ops.subrange(0, i as int));
        lemma_options_len_prefix(ops, i as int);
        lemma_options_len_nonneg(ops.subrange(0, i as int));
        assert forall|j: int| 0 <= j < ops.subrange(0, i as int).len() implies #[trigger] ops.subrange(
            0,
            i as int,
        )[j].emittable() by {
            assert(ops.subrange(0, i as int)[j] == ops[j]);
        }
        lemma_emit_all_len(ops.subrange(0, i as int), s);
        lemma_emit_all_window(ops, s, i as int);
        let w = emit_all(ops.subrange(0, i as int), s).subrange(p, p + n);
        let e = x.emit_spec(w);
        lemma_option_emit_len(x, w);
        crate::ipv6option::lemma_emit_then_parse(x, w);
        let q = from_on(t, p);
        assert(q.subrange(0, n) =~= e);
        lemma_option_in_place(e, q, x);
        assert(option_at(t, k) == p + option_len(from_on(t, p)));
    }
}

/// The walk over options emitted into a buffer of just their length keeps
/// them all and meets the end.
proof fn lemma_walk_ends(ops: Seq<Ipv6OptionRepr>, s: Seq<u8>, i: nat)
    requires
        s.len() == options_len(ops),
        ops.len() <= 4,
        i <= ops.len(),
        forall|j: int|
            0 <= j < ops.len() ==> (#[trigger] ops[j]).emittable()
                && crate::ipv6option::emit_parses_back(ops[j]),
    ensures
        walk_ok(emit_all(ops, s), i),
        walk_count(emit_all(ops, s), i) == ops.len() - i,
    decreases ops.len() - i,
{
    let t = emit_all(ops, s);
    lemma_emit_all_len(ops, s);
    lemma_walk_emitted(ops, s, ops.len());
    lemma_walk_emitted(ops, s, i);
    assert(ops.subrange(0, ops.len() as int) =~= ops);
    if i < ops.len() {
        lemma_walk_ends(ops, s, i + 1);
        lemma_walk_emitted(ops, s, i + 1);
        lemma_options_len_prefix(ops, i as int + 1);
        assert(ops.subrange(0, i + 1 as int).drop_last() =~= ops.subrange(0, i as int));
        let x = ops[i as int];
        assert(x.parsed_from(from_on(t, option_at(t, i))));
        assert(x.buffer_len_spec() >= 1);
        lemma_options_len_nonneg(ops.subrange(0, i as int));
    }
}

/// Parsing the header that was emitted, into a buffer of just its length,
/// finds every option in order, each parsing back as it was, when there is
/// at least one and each can be emitted and parses back.
pub proof fn lemma_emit_then_parse(r: Repr, s: Seq<u8>)
    requires
        r.options_spec().len() <= 4,
        r.options_spec().len() >= 1,
        s.len() == r.buffer_len_spec(),
        forall|j: int|
            0 <= j < r.options_spec().len() ==> (#[trigger] r.options_spec()[j]).emittable()
                && crate::ipv6option::emit_parses_back(r.options_spec()[j]),
    ensures
        emit_all(r.options_spec(), s).len() >= 1,
        walk_ok(emit_all(r.options_spec(), s), 0),
        walk_count(emit_all(r.options_spec(), s), 0) == r.options_spec().len(),
        forall|j: int|
            0 <= j < r.options_spec().len() ==> (#[trigger] r.options_spec()[j]).parsed_from(
                from_on(emit_all(r.options_spec(), s), option_at(emit_all(r.options_spec(), s), j as nat)),
            ),
{
    let ops = r.options_spec();
    lemma_walk_ends(ops, s, 0);
    lemma_walk_emitted(ops, s, ops.len());
    lemma_emit_all_len(ops, s);
    lemma_options_len_prefix(ops, 1);
    assert(ops.subrange(0, 1).drop_last() =~= ops.subrange(0, 0));
    assert(ops[0].buffer_len_spec() >= 1);
    assert(ops.subrange(0, 0) =~= Seq::<Ipv6OptionRepr>::empty());
    lemma_options_len_prefix(ops, 0);
}

} // verus!
