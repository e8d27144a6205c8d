//! The Internet checksum: the ones'-complement sum of 16-bit words.

use vstd::prelude::*;
use crate::buf::{be16, put_be16, put_be32, BytesMut};
use crate::ip::IpProtocol;
use crate::ipv6::Address as Ipv6Address;
use vstd::arithmetic::div_mod::{lemma_mod_equivalence, lemma_fundamental_div_mod};
use vstd::arithmetic::div_mod::lemma_mod_multiples_vanish;

verus! {

/// The plain sum of the big-endian 16-bit words of `s`; an odd trailing octet
/// is the high half of a last word.
pub open spec fn word_sum(s: Seq<u8>) -> nat
    decreases s.len(),
{
    if s.len() == 0 {
        0
    } else if s.len() == 1 {
        s[0] as nat * 256
    } else {
        (s[0] as nat * 256 + s[1] as nat) + word_sum(s.skip(2))
    }
}

/// End-around-carry reduction of a sum to 16 bits.
pub open spec fn fold16(n: nat) -> nat
    decreases n,
{
    if n < 65536 {
        n
    } else {
        fold16(n / 65536 + n % 65536)
    }
}

/// The Internet checksum of `s` before complementing: the ones'-complement
/// sum of its words.
pub open spec fn ones_sum(s: Seq<u8>) -> u16 {
    fold16(word_sum(s)) as u16
}

/// The ones'-complement of a 16-bit word.
pub open spec fn complement(x: u16) -> u16 {
    (0xffff - x) as u16
}

/// A buffer whose words sum, ones'-complement, to all ones.
pub open spec fn sums_to_ones(s: Seq<u8>) -> bool {
    ones_sum(s) == 0xffff
}

/// Reduction keeps the value modulo 65535, stays in 16 bits, and maps only 0
/// to 0.
pub proof fn lemma_fold16(n: nat)
    ensures
        fold16(n) < 65536,
        fold16(n) % 65535 == n % 65535,
        n > 0 ==> fold16(n) > 0,
        n == 0 ==> fold16(n) == 0,
    decreases n,
{
    if n >= 65536 {
        let q = n / 65536;
        let r = n % 65536;
        let m = q + r;
        assert(n == 65536 * q + r);
        assert(q >= 1);
        assert(m < n);
        lemma_fold16(m as nat);
        assert(n == 65535 * q + m);
        lemma_mod_multiples_vanish(q as int, m as int, 65535);
    }
}

/// The words of a buffer, read two octets at a time from the front.
pub proof fn lemma_word_sum_skip(s: Seq<u8>, i: int)
    requires
        0 <= i,
        i % 2 == 0,
        i + 2 <= s.len(),
    ensures
        word_sum(s.skip(i)) == (s[i] as nat * 256 + s[i + 1] as nat) + word_sum(s.skip(i + 2)),
{
    assert(s.skip(i).skip(2) =~= s.skip(i + 2));
}

/// Writing a word at an even offset adds it to the sum of the words.
pub proof fn lemma_word_sum_put16(s: Seq<u8>, at: int, v: u16)
    requires
        0 <= at,
        at % 2 == 0,
        at + 2 <= s.len(),
    ensures
        word_sum(put_be16(s, at, v)) == word_sum(put_be16(s, at, 0)) + v,
    decreases at,
{
    let t = put_be16(s, at, v);
    let z = put_be16(s, at, 0);
    if at == 0 {
        assert(t.skip(2) =~= z.skip(2));
        assert((v / 256) * 256 + v % 256 == v);
    } else {
        let s2 = s.skip(2);
        lemma_word_sum_put16(s2, at - 2, v);
        assert(t.skip(2) =~= put_be16(s2, at - 2, v));
        assert(z.skip(2) =~= put_be16(s2, at - 2, 0));
    }
}

/// Clearing a word at an even offset and then placing there the complement of
/// the buffer's sum makes the whole buffer sum to all ones.
pub proof fn lemma_fill_then_verify(s: Seq<u8>, at: int)
    requires
        0 <= at,
        at % 2 == 0,
        at + 2 <= s.len(),
    ensures
        sums_to_ones(
            put_be16(put_be16(s, at, 0), at, complement(ones_sum(put_be16(s, at, 0)))),
        ),
{
    let z = put_be16(s, at, 0);
    assert(put_be16(z, at, 0) =~= z);
    lemma_fill_zeroed(z, at);
}

/// The core of [`lemma_fill_then_verify`]; `s` need not be zeroed at `at`,
/// the word is first cleared.
proof fn lemma_fill_zeroed(s: Seq<u8>, at: int)
    requires
        0 <= at,
        at % 2 == 0,
        at + 2 <= s.len(),
    ensures
        put_be16(s, at, 0) == s ==> sums_to_ones(put_be16(s, at, complement(ones_sum(s)))),
{
    if put_be16(s, at, 0) == s {
        let total = word_sum(s);
        lemma_fold16(total);
        let f = fold16(total);
        let c = (65535 - f) as u16;
        lemma_word_sum_put16(s, at, c);
        assert(put_be16(put_be16(s, at, c), at, 0) =~= put_be16(s, at, 0));
        let t = put_be16(s, at, c);
        assert(put_be16(t, at, 0) == s);
        lemma_word_sum_put16(t, at, 0);
        assert(word_sum(t) == total + c);
        let n = (total + c) as nat;
        lemma_fold16(n);
        assert(n > 0);
        assert(f % 65535 == total % 65535);
        assert(n == total + 65535 - f);
        assert((total + 65535 - f) % 65535 == 0) by {
            let k = total / 65535;
            let r = total % 65535;
            assert(total == 65535 * k + r);
            assert(f % 65535 == r);
            assert(f == r || f == 65535) by {
                assert(f < 65536);
            }
            if f == r {
                assert(total + 65535 - f == 65535 * (k + 1));
                lemma_mod_multiples_vanish((k + 1) as int, 0, 65535);
            } else {
                assert(r == 0);
                assert(total + 65535 - f == 65535 * k);
                lemma_mod_multiples_vanish(k as int, 0, 65535);
            }
        }
    }
}

/// Reduce a 64-bit sum to 16 bits with end-around carry.
pub fn propagate_carries(word: u128) -> (r: u16)
    ensures
        r == fold16(word as nat),
{
    let mut w = word;
    while w >= 65536
        invariant
            fold16(w as nat) == fold16(word as nat),
        decreases w,
    {
        w = w / 65536 + w % 65536;
    }
    w as u16
}

/// Compute the Internet checksum (before complementing) of `data`.
pub fn data(bytes: &[u8]) -> (r: u16)
    ensures
        r == ones_sum(bytes@),
{
    let n = bytes.len();
    let mut accum: u128 = 0;
    let mut i: usize = 0;
    assert(bytes@.skip(0) =~= bytes@);
    while n - i >= 2
        invariant
            n == bytes@.len(),
            i <= n,
            i % 2 == 0,
            accum as nat + word_sum(bytes@.skip(i as int)) == word_sum(bytes@),
            accum <= 65535 * (i as int / 2),
        decreases n - i,
    {
        proof {
            lemma_word_sum_skip(bytes@, i as int);
        }
        accum = accum + (bytes[i] as u128) * 256 + (bytes[i + 1] as u128);
        i = i + 2;
    }
    if i < n {
        assert(bytes@.skip(i as int).len() == 1);
        accum = accum + (bytes[i] as u128) * 256;
    } else {
        assert(bytes@.skip(i as int).len() == 0);
    }
    propagate_carries(accum)
}

/// Combine several partial checksums.
pub fn combine(checksums: &[u16]) -> (r: u16)
    ensures
        r == fold16(seq_sum16(checksums@)),
{
    let n = checksums.len();
    let mut accum: u128 = 0;
    let mut i: usize = 0;
    while i < n
        invariant
            n == checksums@.len(),
            i <= n,
            accum == seq_sum16(checksums@.subrange(0, i as int)),
            accum <= 65535 * i,
        decreases n - i,
    {
        assert(checksums@.subrange(0, i + 1 as int).drop_last() =~= checksums@.subrange(0, i as int));
        accum = accum + checksums[i] as u128;
        i = i + 1;
    }
    assert(checksums@.subrange(0, n as int) =~= checksums@);
    propagate_carries(accum)
}

/// The plain sum of a sequence of words.
pub open spec fn seq_sum16(s: Seq<u16>) -> nat
    decreases s.len(),
{
    if s.len() == 0 {
        0
    } else {
        seq_sum16(s.drop_last()) + s.last() as nat
    }
}

/// Clearing a word at an even offset, and placing there the complement of
/// the sum of the buffer and a further 16-bit term, makes the buffer and that
/// term sum to all ones.
pub proof fn lemma_fill_with_extra(s: Seq<u8>, at: int, p: u16)
    requires
        0 <= at,
        at % 2 == 0,
        at + 2 <= s.len(),
    ensures
        ({
            let z = put_be16(s, at, 0);
            let c = complement(fold16((p + ones_sum(z)) as nat) as u16);
            fold16((p + ones_sum(put_be16(z, at, c))) as nat) == 65535
        }),
{
    let z = put_be16(s, at, 0);
    assert(put_be16(z, at, 0) =~= z);
    let w = word_sum(z);
    lemma_fold16(w);
    let fw = fold16(w);
    let a = (p + fw) as nat;
    lemma_fold16(a);
    let f = fold16(a);
    let c = (65535 - f) as u16;
    assert(complement(f as u16) == c);
    lemma_word_sum_put16(z, at, c);
    let t = put_be16(z, at, c);
    let wc = (w + c) as nat;
    assert(word_sum(t) == wc);
    lemma_fold16(wc);
    let ft = fold16(wc);
    let b = (p + ft) as nat;
    lemma_fold16(b);
    lemma_mod_equivalence(ft as int, wc as int, 65535);
    lemma_mod_equivalence(fw as int, w as int, 65535);
    lemma_mod_equivalence(f as int, a as int, 65535);
    let d1 = ft as int - wc as int;
    let d2 = fw as int - w as int;
    let d3 = f as int - a as int;
    lemma_fundamental_div_mod(d1, 65535);
    lemma_fundamental_div_mod(d2, 65535);
    lemma_fundamental_div_mod(d3, 65535);
    let q = d1 / 65535 - d2 / 65535 - d3 / 65535 + 1;
    assert(b as int == 65535 * q) by (nonlinear_arith)
        requires
            d1 == 65535 * (d1 / 65535),
            d2 == 65535 * (d2 / 65535),
            d3 == 65535 * (d3 / 65535),
            b as int == p + ft,
            d1 == ft - wc,
            d2 == fw - w,
            d3 == f - a,
            wc == w + c,
            c == 65535 - f,
            a == p + fw,
            q == d1 / 65535 - d2 / 65535 - d3 / 65535 + 1,
    ;
    lemma_mod_multiples_vanish(q, 0, 65535);
    assert(b % 65535 == 0);
    if b == 0 {
        assert(wc == 0);
        assert(w == 0);
        assert(fw == 0);
        assert(a == 0);
        assert(f == 0);
    }
}

/// The eight octets of the IPv6 pseudo-header that follow the addresses: the
/// upper-layer length, three zero octets, and the next header value.
pub open spec fn proto_len_octets(next_header: u8, length: u32) -> Seq<u8> {
    put_be32(Seq::new(8, |i: int| 0u8), 0, length).update(7, next_header)
}

/// The checksum, before complementing, of the IPv6 pseudo-header.
pub open spec fn pseudo_header_v6_spec(src: Seq<u8>, dst: Seq<u8>, next_header: u8, length: u32) -> u16 {
    fold16((ones_sum(src) + ones_sum(dst) + ones_sum(proto_len_octets(next_header, length))) as nat) as u16
}

/// Compute the checksum, before complementing, of the IPv6 pseudo-header.
pub fn pseudo_header_v6(
    src_addr: &Ipv6Address,
    dst_addr: &Ipv6Address,
    next_header: IpProtocol,
    length: u32,
) -> (r: u16)
    ensures
        r == pseudo_header_v6_spec(src_addr@, dst_addr@, next_header.raw(), length),
{
    let mut proto_len = [0u8; 8];
    proto_len.set_u32(0, length);
    proto_len[7] = next_header.into();
    proof {
        assert(proto_len@ =~= proto_len_octets(next_header.raw(), length));
    }
    let words = [
        data(src_addr.as_bytes()),
        data(dst_addr.as_bytes()),
        data(proto_len.as_slice()),
    ];
    proof {
        reveal_with_fuel(seq_sum16, 4);
        assert(words@.drop_last().drop_last().drop_last() =~= Seq::<u16>::empty());
    }
    combine(words.as_slice())
}

} // verus!
