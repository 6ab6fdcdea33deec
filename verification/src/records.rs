//! Tables of fixed-size records.
//!
//! Several chunks carry a count followed by that many fixed-size records
//! (cue points, play segments, `ds64` size overrides, `chna` audio IDs,
//! sampler loops). [`concat`] is the wire layout of such a table; the
//! lemmas here locate record `i` at offset `k * i` and rebuild a table
//! from its slices.
use vstd::prelude::*;

use crate::le::{
    le_u16, le_u32, lemma_u16_bytes_of_le, lemma_u16_roundtrip, lemma_u32_bytes_of_le,
    lemma_u32_roundtrip, push_u16, push_u32, read_u16, read_u32, u16_bytes, u32_bytes,
};

verus! {

/// The concatenation of a sequence of byte strings, in order.
pub open spec fn concat(s: Seq<Seq<u8>>) -> Seq<u8>
    decreases s.len(),
{
    if s.len() == 0 {
        Seq::empty()
    } else {
        concat(s.drop_last()) + s.last()
    }
}

/// Every string of `s` has length `k`.
pub open spec fn all_len(s: Seq<Seq<u8>>, k: int) -> bool {
    forall|i: int| 0 <= i < s.len() ==> (#[trigger] s[i]).len() == k
}

/// Appending one string extends the concatenation.
pub proof fn lemma_concat_push(s: Seq<Seq<u8>>, x: Seq<u8>)
    ensures
        concat(s.push(x)) == concat(s) + x,
{
    assert(s.push(x).drop_last() =~= s);
}

proof fn lemma_mul_step(k: int, n: int)
    ensures
        k * (n - 1) + k == k * n,
{
    assert(k * (n - 1) + k == k * n) by (nonlinear_arith);
}

proof fn lemma_mul_mono(k: int, a: int, b: int)
    requires
        0 <= k,
        a <= b,
    ensures
        k * a <= k * b,
{
    assert(k * a <= k * b) by (nonlinear_arith)
        requires
            0 <= k,
            a <= b,
    ;
}

/// A table of `n` records of `k` bytes is `k * n` bytes long, and record
/// `i` sits at `k * i`.
pub proof fn lemma_concat_fixed(s: Seq<Seq<u8>>, k: int)
    requires
        0 <= k,
        all_len(s, k),
    ensures
        concat(s).len() == k * s.len(),
        forall|i: int|
            0 <= i < s.len() ==> concat(s).subrange(k * i, k * i + k) == #[trigger] s[i],
    decreases s.len(),
{
    if s.len() > 0 {
        let t = s.drop_last();
        assert(all_len(t, k)) by {
            assert forall|i: int| 0 <= i < t.len() implies (#[trigger] t[i]).len() == k by {
                assert(t[i] == s[i]);
            }
        }
        lemma_concat_fixed(t, k);
        let n = s.len() as int;
        lemma_mul_step(k, n);
        assert(s[n - 1].len() == k);
        assert forall|i: int| 0 <= i < s.len() implies concat(s).subrange(k * i, k * i + k)
            == #[trigger] s[i] by {
            if i < n - 1 {
                lemma_mul_mono(k, i + 1, n - 1);
                lemma_mul_step(k, i + 1);
                assert(concat(t).subrange(k * i, k * i + k) == t[i]);
                assert(concat(s).subrange(k * i, k * i + k) =~= concat(t).subrange(
                    k * i,
                    k * i + k,
                ));
                assert(t[i] == s[i]);
            } else {
                assert(concat(s).subrange(k * i, k * i + k) =~= s.last());
            }
        }
    }
}

/// A byte string made of `n` consecutive `k`-byte slices is the
/// concatenation of those slices.
pub proof fn lemma_concat_slices(s: Seq<Seq<u8>>, b: Seq<u8>, off: int, k: int)
    requires
        0 <= off,
        0 <= k,
        off + k * s.len() == b.len(),
        forall|i: int|
            0 <= i < s.len() ==> #[trigger] s[i] == b.subrange(off + k * i, off + k * i + k),
    ensures
        concat(s) == b.subrange(off, b.len() as int),
    decreases s.len(),
{
    if s.len() == 0 {
        assert(b.subrange(off, b.len() as int) =~= Seq::<u8>::empty());
    } else {
        let n = s.len() as int;
        let t = s.drop_last();
        let b2 = b.subrange(0, off + k * (n - 1));
        lemma_mul_step(k, n);
        assert forall|i: int| 0 <= i < t.len() implies #[trigger] t[i] == b2.subrange(
            off + k * i,
            off + k * i + k,
        ) by {
            assert(t[i] == s[i]);
            lemma_mul_mono(k, i + 1, n - 1);
            lemma_mul_step(k, i + 1);
            assert(b2.subrange(off + k * i, off + k * i + k) =~= b.subrange(
                off + k * i,
                off + k * i + k,
            ));
        }
        lemma_concat_slices(t, b2, off, k);
        assert(s.last() == b.subrange(off + k * (n - 1), off + k * (n - 1) + k));
        assert(concat(s) =~= b.subrange(off, b.len() as int));
    }
}

/// The wire bytes of an array of little-endian `u16` values.
pub open spec fn u16s_bytes(s: Seq<u16>) -> Seq<u8> {
    concat(s.map_values(|x: u16| u16_bytes(x)))
}

/// The wire bytes of an array of little-endian `u32` values.
pub open spec fn u32s_bytes(s: Seq<u32>) -> Seq<u8> {
    concat(s.map_values(|x: u32| u32_bytes(x)))
}

/// The `n` little-endian `u16` values stored from `b[off]` on.
pub open spec fn le_u16s(b: Seq<u8>, off: int, n: nat) -> Seq<u16> {
    Seq::new(n, |i: int| le_u16(b, off + 2 * i))
}

/// The `n` little-endian `u32` values stored from `b[off]` on.
pub open spec fn le_u32s(b: Seq<u8>, off: int, n: nat) -> Seq<u32> {
    Seq::new(n, |i: int| le_u32(b, off + 4 * i))
}

/// `u16s_bytes` is two bytes per value, value `i` at `2 * i`.
pub proof fn lemma_u16s_layout(s: Seq<u16>)
    ensures
        u16s_bytes(s).len() == 2 * s.len(),
        forall|i: int|
            0 <= i < s.len() ==> u16s_bytes(s).subrange(2 * i, 2 * i + 2) == u16_bytes(
                #[trigger] s[i],
            ),
{
    let m = s.map_values(|x: u16| u16_bytes(x));
    assert(all_len(m, 2)) by {
        assert forall|i: int| 0 <= i < m.len() implies (#[trigger] m[i]).len() == 2 by {
            assert(m[i] == u16_bytes(s[i]));
        }
    }
    lemma_concat_fixed(m, 2);
    assert forall|i: int| 0 <= i < s.len() implies u16s_bytes(s).subrange(2 * i, 2 * i + 2)
        == u16_bytes(#[trigger] s[i]) by {
        assert(m[i] == u16_bytes(s[i]));
    }
}

/// `u32s_bytes` is four bytes per value, value `i` at `4 * i`.
pub proof fn lemma_u32s_layout(s: Seq<u32>)
    ensures
        u32s_bytes(s).len() == 4 * s.len(),
        forall|i: int|
            0 <= i < s.len() ==> u32s_bytes(s).subrange(4 * i, 4 * i + 4) == u32_bytes(
                #[trigger] s[i],
            ),
{
    let m = s.map_values(|x: u32| u32_bytes(x));
    assert(all_len(m, 4)) by {
        assert forall|i: int| 0 <= i < m.len() implies (#[trigger] m[i]).len() == 4 by {
            assert(m[i] == u32_bytes(s[i]));
        }
    }
    lemma_concat_fixed(m, 4);
    assert forall|i: int| 0 <= i < s.len() implies u32s_bytes(s).subrange(4 * i, 4 * i + 4)
        == u32_bytes(#[trigger] s[i]) by {
        assert(m[i] == u32_bytes(s[i]));
    }
}

/// Reading back an encoded `u16` array gives the values.
#[verifier::spinoff_prover]
pub proof fn lemma_u16s_roundtrip(b: Seq<u8>, off: int, s: Seq<u16>)
    requires
        0 <= off,
        off + 2 * s.len() <= b.len(),
        b.subrange(off, off + 2 * s.len()) == u16s_bytes(s),
    ensures
        le_u16s(b, off, s.len()) == s,
{
    lemma_u16s_layout(s);
    assert forall|i: int| 0 <= i < s.len() implies le_u16(b, off + 2 * i) == s[i] by {
        assert(b.subrange(off + 2 * i, off + 2 * i + 2) =~= u16s_bytes(s).subrange(
            2 * i,
            2 * i + 2,
        ));
        lemma_u16_roundtrip(b, off + 2 * i, s[i]);
    }
    assert(le_u16s(b, off, s.len()) =~= s);
}

/// Reading back an encoded `u32` array gives the values.
#[verifier::spinoff_prover]
pub proof fn lemma_u32s_roundtrip(b: Seq<u8>, off: int, s: Seq<u32>)
    requires
        0 <= off,
        off + 4 * s.len() <= b.len(),
        b.subrange(off, off + 4 * s.len()) == u32s_bytes(s),
    ensures
        le_u32s(b, off, s.len()) == s,
{
    lemma_u32s_layout(s);
    assert forall|i: int| 0 <= i < s.len() implies le_u32(b, off + 4 * i) == s[i] by {
        assert(b.subrange(off + 4 * i, off + 4 * i + 4) =~= u32s_bytes(s).subrange(
            4 * i,
            4 * i + 4,
        ));
        lemma_u32_roundtrip(b, off + 4 * i, s[i]);
    }
    assert(le_u32s(b, off, s.len()) =~= s);
}

/// Encoding a decoded `u16` array gives the bytes back.
pub proof fn lemma_u16s_bytes_of(b: Seq<u8>, off: int, n: nat)
    requires
        0 <= off,
        off + 2 * n <= b.len(),
    ensures
        u16s_bytes(le_u16s(b, off, n)) == b.subrange(off, off + 2 * n),
{
    let v = le_u16s(b, off, n);
    let m = v.map_values(|x: u16| u16_bytes(x));
    let c = b.subrange(0, off + 2 * n);
    assert forall|i: int| 0 <= i < m.len() implies #[trigger] m[i] == c.subrange(
        off + 2 * i,
        off + 2 * i + 2,
    ) by {
        lemma_u16_bytes_of_le(b, off + 2 * i);
        assert(c.subrange(off + 2 * i, off + 2 * i + 2) =~= b.subrange(off + 2 * i, off + 2 * i + 2));
    }
    lemma_concat_slices(m, c, off, 2);
    assert(c.subrange(off, c.len() as int) =~= b.subrange(off, off + 2 * n));
}

/// Encoding a decoded `u32` array gives the bytes back.
pub proof fn lemma_u32s_bytes_of(b: Seq<u8>, off: int, n: nat)
    requires
        0 <= off,
        off + 4 * n <= b.len(),
    ensures
        u32s_bytes(le_u32s(b, off, n)) == b.subrange(off, off + 4 * n),
{
    let v = le_u32s(b, off, n);
    let m = v.map_values(|x: u32| u32_bytes(x));
    let c = b.subrange(0, off + 4 * n);
    assert forall|i: int| 0 <= i < m.len() implies #[trigger] m[i] == c.subrange(
        off + 4 * i,
        off + 4 * i + 4,
    ) by {
        lemma_u32_bytes_of_le(b, off + 4 * i);
        assert(c.subrange(off + 4 * i, off + 4 * i + 4) =~= b.subrange(off + 4 * i, off + 4 * i + 4));
    }
    lemma_concat_slices(m, c, off, 4);
    assert(c.subrange(off, c.len() as int) =~= b.subrange(off, off + 4 * n));
}

/// Append every value of `v` in little-endian order.
pub fn push_u16s(out: &mut Vec<u8>, v: &[u16])
    ensures
        final(out)@ == old(out)@ + u16s_bytes(v@),
{
    let mut i: usize = 0;
    while i < v.len()
        invariant
            i <= v@.len(),
            out@ == old(out)@ + u16s_bytes(v@.subrange(0, i as int)),
        decreases v@.len() - i,
    {
        push_u16(out, v[i]);
        proof {
            let t0 = v@.subrange(0, i as int);
            let t1 = v@.subrange(0, i + 1);
            assert(t1.map_values(|x: u16| u16_bytes(x)) =~= t0.map_values(|x: u16| u16_bytes(x)).push(
                u16_bytes(v@[i as int]),
            ));
            lemma_concat_push(t0.map_values(|x: u16| u16_bytes(x)), u16_bytes(v@[i as int]));
        }
        i += 1;
    }
    assert(v@.subrange(0, v@.len() as int) =~= v@);
}

/// Append every value of `v` in little-endian order.
pub fn push_u32s(out: &mut Vec<u8>, v: &[u32])
    ensures
        final(out)@ == old(out)@ + u32s_bytes(v@),
{
    let mut i: usize = 0;
    while i < v.len()
        invariant
            i <= v@.len(),
            out@ == old(out)@ + u32s_bytes(v@.subrange(0, i as int)),
        decreases v@.len() - i,
    {
        push_u32(out, v[i]);
        proof {
            let t0 = v@.subrange(0, i as int);
            let t1 = v@.subrange(0, i + 1);
            assert(t1.map_values(|x: u32| u32_bytes(x)) =~= t0.map_values(|x: u32| u32_bytes(x)).push(
                u32_bytes(v@[i as int]),
            ));
            lemma_concat_push(t0.map_values(|x: u32| u32_bytes(x)), u32_bytes(v@[i as int]));
        }
        i += 1;
    }
    assert(v@.subrange(0, v@.len() as int) =~= v@);
}

/// Read `n` little-endian `u16` values starting at `b[off]`.
pub fn read_u16s(b: &[u8], off: usize, n: usize) -> (r: Vec<u16>)
    requires
        off + 2 * n <= b@.len(),
    ensures
        r@ == le_u16s(b@, off as int, n as nat),
{
    let mut r: Vec<u16> = Vec::new();
    let blen = b.len();
    let mut i: usize = 0;
    while i < n
        invariant
            i <= n,
            off + 2 * n <= b@.len(),
            blen == b@.len(),
            r@.len() == i,
            forall|j: int| 0 <= j < i ==> r@[j] == le_u16(b@, off + 2 * j),
        decreases n - i,
    {
        r.push(read_u16(b, off + 2 * i));
        i += 1;
    }
    assert(r@ =~= le_u16s(b@, off as int, n as nat));
    r
}

/// Read `n` little-endian `u32` values starting at `b[off]`.
pub fn read_u32s(b: &[u8], off: usize, n: usize) -> (r: Vec<u32>)
    requires
        off + 4 * n <= b@.len(),
    ensures
        r@ == le_u32s(b@, off as int, n as nat),
{
    let mut r: Vec<u32> = Vec::new();
    let blen = b.len();
    let mut i: usize = 0;
    while i < n
        invariant
            i <= n,
            off + 4 * n <= b@.len(),
            blen == b@.len(),
            r@.len() == i,
            forall|j: int| 0 <= j < i ==> r@[j] == le_u32(b@, off + 4 * j),
        decreases n - i,
    {
        r.push(read_u32(b, off + 4 * i));
        i += 1;
    }
    assert(r@ =~= le_u32s(b@, off as int, n as nat));
    r
}

/// A slice of a slice: if `b[off..off + len]` is `x`, then
/// `b[off + a..off + c]` is `x[a..c]`.
pub proof fn lemma_sub(b: Seq<u8>, off: int, len: int, x: Seq<u8>, a: int, c: int)
    requires
        0 <= off,
        off + len <= b.len(),
        b.subrange(off, off + len) == x,
        0 <= a <= c <= len,
    ensures
        b.subrange(off + a, off + c) == x.subrange(a, c),
{
    assert(b.subrange(off + a, off + c) =~= x.subrange(a, c)) by {
        assert forall|i: int| 0 <= i < c - a implies b.subrange(off + a, off + c)[i] == x.subrange(
            a,
            c,
        )[i] by {
            assert(b.subrange(off, off + len)[a + i] == b[off + a + i]);
        }
    }
}

/// Two adjacent slices join into one.
pub proof fn lemma_join(b: Seq<u8>, i: int, j: int, k: int)
    requires
        0 <= i <= j <= k <= b.len(),
    ensures
        b.subrange(i, j) + b.subrange(j, k) == b.subrange(i, k),
{
    assert(b.subrange(i, j) + b.subrange(j, k) =~= b.subrange(i, k));
}

/// Prepending one string extends the concatenation at the front.
pub proof fn lemma_concat_prepend(x: Seq<u8>, s: Seq<Seq<u8>>)
    ensures
        concat(seq![x] + s) == x + concat(s),
    decreases s.len(),
{
    if s.len() == 0 {
        let t = seq![x] + s;
        assert(t =~= seq![x]);
        assert(t.drop_last() =~= Seq::<Seq<u8>>::empty());
        assert(t.last() == x);
        assert(concat(t.drop_last()) == Seq::<u8>::empty());
        assert(concat(t) == concat(t.drop_last()) + t.last());
        assert(Seq::<u8>::empty() + x =~= x);
        assert(concat(s) == Seq::<u8>::empty());
        assert(x + concat(s) =~= x);
    } else {
        let t = seq![x] + s;
        lemma_concat_prepend(x, s.drop_last());
        assert(t.drop_last() =~= seq![x] + s.drop_last());
        assert(t.last() == s.last());
        assert(concat(t) == concat(t.drop_last()) + t.last());
        assert(concat(t.drop_last()) == x + concat(s.drop_last()));
        assert(concat(s) == concat(s.drop_last()) + s.last());
        assert(x + concat(s.drop_last()) + s.last() =~= x + (concat(s.drop_last()) + s.last()));
    }
}

} // verus!
