//! Little-endian integer codecs shared by every chunk decoder.
//!
//! The wire format stores every multi-byte integer least-significant byte
//! first. The spec functions below state the decoding and encoding with
//! plain arithmetic, so the round-trip facts are linear arithmetic.
use vstd::prelude::*;

verus! {

/// The little-endian `u16` stored at `s[off..off + 2]`.
pub open spec fn le_u16(s: Seq<u8>, off: int) -> u16 {
    (s[off] as int + s[off + 1] as int * 256) as u16
}

/// The little-endian `u32` stored at `s[off..off + 4]`.
pub open spec fn le_u32(s: Seq<u8>, off: int) -> u32 {
    (s[off] as int + s[off + 1] as int * 256 + s[off + 2] as int * 65536 + s[off + 3] as int
        * 16777216) as u32
}

/// The 64-bit value stored as a little-endian low word followed by a
/// little-endian high word at `s[off..off + 8]`.
pub open spec fn le_u64(s: Seq<u8>, off: int) -> u64 {
    (le_u32(s, off) as int + le_u32(s, off + 4) as int * 4294967296) as u64
}

/// The big-endian `u32` stored at `s[off..off + 4]`.
pub open spec fn be_u32(s: Seq<u8>, off: int) -> u32 {
    (s[off] as int * 16777216 + s[off + 1] as int * 65536 + s[off + 2] as int * 256 + s[off
        + 3] as int) as u32
}

/// Little-endian wire bytes of a `u16`.
pub open spec fn u16_bytes(v: u16) -> Seq<u8> {
    seq![(v % 256) as u8, (v / 256) as u8]
}

/// Little-endian wire bytes of a `u32`.
pub open spec fn u32_bytes(v: u32) -> Seq<u8> {
    seq![(v % 256) as u8, ((v / 256) % 256) as u8, ((v / 65536) % 256) as u8, (v / 16777216) as u8]
}

/// Big-endian wire bytes of a `u32`.
pub open spec fn u32_be_bytes(v: u32) -> Seq<u8> {
    seq![(v / 16777216) as u8, ((v / 65536) % 256) as u8, ((v / 256) % 256) as u8, (v % 256) as u8]
}

/// A 64-bit value as its little-endian low word then its high word.
pub open spec fn u64_bytes(v: u64) -> Seq<u8> {
    u32_bytes((v % 4294967296) as u32) + u32_bytes((v / 4294967296) as u32)
}

/// Decoding the encoding of a `u16` gives the value back.
#[verifier::spinoff_prover]
pub proof fn lemma_u16_roundtrip(s: Seq<u8>, off: int, v: u16)
    requires
        0 <= off,
        off + 2 <= s.len(),
        s.subrange(off, off + 2) == u16_bytes(v),
    ensures
        le_u16(s, off) == v,
{
    assert(s[off] == u16_bytes(v)[0]);
    assert(s[off + 1] == u16_bytes(v)[1]);
}

/// Decoding the encoding of a `u32` gives the value back.
#[verifier::spinoff_prover]
pub proof fn lemma_u32_roundtrip(s: Seq<u8>, off: int, v: u32)
    requires
        0 <= off,
        off + 4 <= s.len(),
        s.subrange(off, off + 4) == u32_bytes(v),
    ensures
        le_u32(s, off) == v,
{
    assert(s[off] == u32_bytes(v)[0]);
    assert(s[off + 1] == u32_bytes(v)[1]);
    assert(s[off + 2] == u32_bytes(v)[2]);
    assert(s[off + 3] == u32_bytes(v)[3]);
}

/// Decoding the big-endian encoding of a `u32` gives the value back.
#[verifier::spinoff_prover]
pub proof fn lemma_u32_be_roundtrip(s: Seq<u8>, off: int, v: u32)
    requires
        0 <= off,
        off + 4 <= s.len(),
        s.subrange(off, off + 4) == u32_be_bytes(v),
    ensures
        be_u32(s, off) == v,
{
    assert(s[off] == u32_be_bytes(v)[0]);
    assert(s[off + 1] == u32_be_bytes(v)[1]);
    assert(s[off + 2] == u32_be_bytes(v)[2]);
    assert(s[off + 3] == u32_be_bytes(v)[3]);
}

/// Decoding the encoding of a 64-bit value gives the value back.
#[verifier::spinoff_prover]
pub proof fn lemma_u64_roundtrip(s: Seq<u8>, off: int, v: u64)
    requires
        0 <= off,
        off + 8 <= s.len(),
        s.subrange(off, off + 8) == u64_bytes(v),
    ensures
        le_u64(s, off) == v,
{
    let lo = (v % 4294967296) as u32;
    let hi = (v / 4294967296) as u32;
    assert(s.subrange(off, off + 4) == s.subrange(off, off + 8).subrange(0, 4));
    assert(s.subrange(off + 4, off + 8) == s.subrange(off, off + 8).subrange(4, 8));
    assert(u64_bytes(v).subrange(0, 4) == u32_bytes(lo));
    assert(u64_bytes(v).subrange(4, 8) == u32_bytes(hi));
    lemma_u32_roundtrip(s, off, lo);
    lemma_u32_roundtrip(s, off + 4, hi);
}

/// Encoding a decoded `u16` gives the same bytes back.
pub proof fn lemma_u16_bytes_of_le(s: Seq<u8>, off: int)
    requires
        0 <= off,
        off + 2 <= s.len(),
    ensures
        u16_bytes(le_u16(s, off)) == s.subrange(off, off + 2),
{
    assert(u16_bytes(le_u16(s, off)) =~= s.subrange(off, off + 2));
}

/// Splitting a four-byte little-endian value back into its bytes.
proof fn lemma_split4(a: u8, b: u8, c: u8, d: u8)
    ensures
        ({
            let v = (a as int + b as int * 256 + c as int * 65536 + d as int * 16777216) as u32;
            &&& v % 256 == a
            &&& (v / 256) % 256 == b
            &&& (v / 65536) % 256 == c
            &&& v / 16777216 == d
        }),
{
    let v: u32 = (a as int + b as int * 256 + c as int * 65536 + d as int * 16777216) as u32;
    assert(v % 256 == a && (v / 256) % 256 == b && (v / 65536) % 256 == c && v / 16777216 == d)
        by (bit_vector)
        requires
            v == (a as u32 + b as u32 * 256 + c as u32 * 65536 + d as u32 * 16777216) as u32,
    ;
}

/// Encoding a decoded `u32` gives the same bytes back.
pub proof fn lemma_u32_bytes_of_le(s: Seq<u8>, off: int)
    requires
        0 <= off,
        off + 4 <= s.len(),
    ensures
        u32_bytes(le_u32(s, off)) == s.subrange(off, off + 4),
{
    lemma_split4(s[off], s[off + 1], s[off + 2], s[off + 3]);
    assert(u32_bytes(le_u32(s, off)) =~= s.subrange(off, off + 4));
}

/// Encoding a decoded big-endian `u32` gives the same bytes back.
pub proof fn lemma_u32_be_bytes_of_be(s: Seq<u8>, off: int)
    requires
        0 <= off,
        off + 4 <= s.len(),
    ensures
        u32_be_bytes(be_u32(s, off)) == s.subrange(off, off + 4),
{
    lemma_split4(s[off + 3], s[off + 2], s[off + 1], s[off]);
    assert(u32_be_bytes(be_u32(s, off)) =~= s.subrange(off, off + 4));
}

/// Encoding a decoded 64-bit value gives the same bytes back.
pub proof fn lemma_u64_bytes_of_le(s: Seq<u8>, off: int)
    requires
        0 <= off,
        off + 8 <= s.len(),
    ensures
        u64_bytes(le_u64(s, off)) == s.subrange(off, off + 8),
{
    let v = le_u64(s, off);
    assert((v % 4294967296) as u32 == le_u32(s, off));
    assert((v / 4294967296) as u32 == le_u32(s, off + 4));
    lemma_u32_bytes_of_le(s, off);
    lemma_u32_bytes_of_le(s, off + 4);
    assert(u64_bytes(v) =~= s.subrange(off, off + 8));
}

/// Read the little-endian `u16` at `s[off..off + 2]`.
pub fn read_u16(s: &[u8], off: usize) -> (r: u16)
    requires
        off + 2 <= s@.len(),
    ensures
        r == le_u16(s@, off as int),
{
    s[off] as u16 + (s[off + 1] as u16) * 256
}

/// Read the little-endian `u32` at `s[off..off + 4]`.
pub fn read_u32(s: &[u8], off: usize) -> (r: u32)
    requires
        off + 4 <= s@.len(),
    ensures
        r == le_u32(s@, off as int),
{
    s[off] as u32 + (s[off + 1] as u32) * 256 + (s[off + 2] as u32) * 65536 + (s[off + 3] as u32)
        * 16777216
}

/// Read the big-endian `u32` at `s[off..off + 4]`.
pub fn read_u32_be(s: &[u8], off: usize) -> (r: u32)
    requires
        off + 4 <= s@.len(),
    ensures
        r == be_u32(s@, off as int),
{
    (s[off] as u32) * 16777216 + (s[off + 1] as u32) * 65536 + (s[off + 2] as u32) * 256 + s[off
        + 3] as u32
}

/// Read the 64-bit value stored as low word then high word at
/// `s[off..off + 8]`.
pub fn read_u64(s: &[u8], off: usize) -> (r: u64)
    requires
        off + 8 <= s@.len(),
        off + 8 <= usize::MAX,
    ensures
        r == le_u64(s@, off as int),
{
    let lo = read_u32(s, off);
    let hi = read_u32(s, off + 4);
    lo as u64 + (hi as u64) * 4294967296
}

/// Append the little-endian bytes of `v`.
pub fn push_u16(out: &mut Vec<u8>, v: u16)
    ensures
        final(out)@ == old(out)@ + u16_bytes(v),
{
    out.push((v % 256) as u8);
    out.push((v / 256) as u8);
    assert(out@ =~= old(out)@ + u16_bytes(v));
}

/// Append the little-endian bytes of `v`.
pub fn push_u32(out: &mut Vec<u8>, v: u32)
    ensures
        final(out)@ == old(out)@ + u32_bytes(v),
{
    out.push((v % 256) as u8);
    out.push(((v / 256) % 256) as u8);
    out.push(((v / 65536) % 256) as u8);
    out.push((v / 16777216) as u8);
    assert(out@ =~= old(out)@ + u32_bytes(v));
}

/// Append the big-endian bytes of `v`.
pub fn push_u32_be(out: &mut Vec<u8>, v: u32)
    ensures
        final(out)@ == old(out)@ + u32_be_bytes(v),
{
    out.push((v / 16777216) as u8);
    out.push(((v / 65536) % 256) as u8);
    out.push(((v / 256) % 256) as u8);
    out.push((v % 256) as u8);
    assert(out@ =~= old(out)@ + u32_be_bytes(v));
}

/// Append `v` as its little-endian low word then its high word.
pub fn push_u64(out: &mut Vec<u8>, v: u64)
    ensures
        final(out)@ == old(out)@ + u64_bytes(v),
{
    push_u32(out, (v % 4294967296) as u32);
    push_u32(out, (v / 4294967296) as u32);
    assert(out@ =~= old(out)@ + u64_bytes(v));
}

/// Append every byte of `s`.
pub fn push_slice(out: &mut Vec<u8>, s: &[u8])
    ensures
        final(out)@ == old(out)@ + s@,
{
    let mut i: usize = 0;
    while i < s.len()
        invariant
            i <= s@.len(),
            out@ == old(out)@ + s@.subrange(0, i as int),
        decreases s@.len() - i,
    {
        out.push(s[i]);
        i += 1;
        assert(out@ =~= old(out)@ + s@.subrange(0, i as int));
    }
    assert(s@.subrange(0, s@.len() as int) =~= s@);
}

/// Copy `s[start..end]` into a fresh vector.
pub fn copy_range(s: &[u8], start: usize, end: usize) -> (r: Vec<u8>)
    requires
        start <= end <= s@.len(),
    ensures
        r@ == s@.subrange(start as int, end as int),
{
    let mut r: Vec<u8> = Vec::new();
    let mut i: usize = start;
    while i < end
        invariant
            start <= i <= end <= s@.len(),
            r@ == s@.subrange(start as int, i as int),
        decreases end - i,
    {
        r.push(s[i]);
        i += 1;
        assert(r@ =~= s@.subrange(start as int, i as int));
    }
    r
}

/// The number of one bits of `v`.
pub open spec fn popcount(v: nat) -> nat
    decreases v,
{
    if v == 0 {
        0
    } else {
        (v % 2) + popcount(v / 2)
    }
}

/// `popcount(v) <= v`.
proof fn lemma_popcount_le(v: nat)
    ensures
        popcount(v) <= v,
    decreases v,
{
    if v > 0 {
        lemma_popcount_le(v / 2);
    }
}

/// The number of one bits of `v`.
pub fn count_ones_u32(v: u32) -> (r: u32)
    ensures
        r == popcount(v as nat),
{
    let mut x: u32 = v;
    let mut c: u32 = 0;
    proof {
        lemma_popcount_le(v as nat);
    }
    while x > 0
        invariant
            c + popcount(x as nat) == popcount(v as nat),
            popcount(v as nat) <= v,
        decreases x,
    {
        c = c + x % 2;
        x = x / 2;
    }
    c
}

/// The little-endian two's-complement `i16` stored at `s[off..off + 2]`.
pub open spec fn le_i16(s: Seq<u8>, off: int) -> i16 {
    le_u16(s, off) as i16
}

/// Read the little-endian `i16` at `s[off..off + 2]`.
pub fn read_i16(s: &[u8], off: usize) -> (r: i16)
    requires
        off + 2 <= s@.len(),
    ensures
        r == le_i16(s@, off as int),
{
    read_u16(s, off) as i16
}

/// Copy `s[off..off + N]` into an array.
pub fn array_from<const N: usize>(s: &[u8], off: usize) -> (a: [u8; N])
    requires
        off + N <= s@.len(),
    ensures
        a@ == s@.subrange(off as int, off + N),
{
    let mut a = [0u8; N];
    let slen = s.len();
    let mut i: usize = 0;
    while i < N
        invariant
            i <= N,
            off + N <= s@.len(),
            slen == s@.len(),
            a@.len() == N,
            forall|j: int| 0 <= j < i ==> a@[j] == s@[off + j],
        decreases N - i,
    {
        a[i] = s[off + i];
        i += 1;
    }
    assert(a@ =~= s@.subrange(off as int, off + N));
    a
}

} // verus!
