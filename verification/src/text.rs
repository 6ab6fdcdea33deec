//! Byte strings as text: NUL-terminated fields and UTF-8 decoding.
//!
//! Many chunk fields are fixed-width byte arrays holding text that ends
//! at the first NUL byte. [`first_nul`] states where such a field ends;
//! the decoders then turn the bytes before it into text either strictly
//! ([`str_from_utf8`], which refuses invalid UTF-8) or lossily
//! ([`string_from_utf8_lossy`], which substitutes U+FFFD).
use vstd::prelude::*;
use vstd::utf8::{
    decode_utf8, encode_scalar, encode_utf8, encode_utf8_decode_utf8, encode_utf8_valid_utf8,
    is_scalar, valid_utf8,
};

verus! {

/// Index of the first NUL byte of `s`, or its length when it has none.
pub open spec fn first_nul(s: Seq<u8>) -> nat
    decreases s.len(),
{
    if s.len() == 0 {
        0
    } else if s[0] == 0 {
        0
    } else {
        1 + first_nul(s.drop_first())
    }
}

/// The bytes of `s` before its first NUL.
pub open spec fn before_nul(s: Seq<u8>) -> Seq<u8> {
    s.subrange(0, first_nul(s) as int)
}

/// [`first_nul`] is within `s`, no byte before it is NUL, and it
/// points at a NUL unless it is the length.
pub proof fn lemma_first_nul(s: Seq<u8>)
    ensures
        first_nul(s) <= s.len(),
        forall|i: int| 0 <= i < first_nul(s) ==> s[i] != 0,
        first_nul(s) < s.len() ==> s[first_nul(s) as int] == 0,
    decreases s.len(),
{
    if s.len() > 0 && s[0] != 0 {
        lemma_first_nul(s.drop_first());
        assert forall|i: int| 0 <= i < first_nul(s) implies s[i] != 0 by {
            if i > 0 {
                assert(s[i] == s.drop_first()[i - 1]);
            }
        }
    }
}

/// A byte string with no NUL in `s[..k]` and a NUL at `k` (or `k` its
/// length) has its first NUL at `k`.
pub proof fn lemma_first_nul_at(s: Seq<u8>, k: int)
    requires
        0 <= k <= s.len(),
        forall|i: int| 0 <= i < k ==> s[i] != 0,
        k < s.len() ==> s[k] == 0,
    ensures
        first_nul(s) == k,
    decreases s.len(),
{
    if s.len() > 0 && s[0] != 0 {
        let t = s.drop_first();
        assert forall|i: int| 0 <= i < k - 1 implies t[i] != 0 by {
            assert(t[i] == s[i + 1]);
        }
        if k - 1 < t.len() {
            assert(t[k - 1] == s[k]);
        }
        lemma_first_nul_at(t, k - 1);
    }
}

/// Position of the first NUL byte of `s`, or its length.
pub fn nul_position(s: &[u8]) -> (r: usize)
    ensures
        r == first_nul(s@),
{
    let mut i: usize = 0;
    while i < s.len()
        invariant
            i <= s@.len(),
            forall|j: int| 0 <= j < i ==> s@[j] != 0,
        decreases s@.len() - i,
    {
        if s[i] == 0 {
            proof {
                lemma_first_nul_at(s@, i as int);
            }
            return i;
        }
        i += 1;
    }
    proof {
        lemma_first_nul_at(s@, i as int);
    }
    i
}

/// `std::str::from_utf8`: the bytes as a string slice when they are
/// valid UTF-8, and `None` otherwise. Its contract claims that the
/// standard library accepts exactly the byte strings that `valid_utf8`
/// describes and that the accepted slice holds the decoded characters.
#[verifier::external_body]
pub(crate) fn str_from_utf8(b: &[u8]) -> (r: Option<&str>)
    ensures
        r is Some <==> valid_utf8(b@),
        r matches Some(s) ==> s@ == decode_utf8(b@),
{
    std::str::from_utf8(b).ok()
}

/// The text `String::from_utf8_lossy` makes of a byte string: the
/// decoded characters, with each invalid sequence replaced by U+FFFD.
pub uninterp spec fn utf8_lossy(b: Seq<u8>) -> Seq<char>;

/// `String::from_utf8_lossy(..).into_owned()`: the text of the bytes,
/// invalid sequences replaced by U+FFFD. Its contract names the result
/// and claims only what the standard library documents plainly: valid
/// UTF-8 is decoded unchanged.
#[verifier::external_body]
pub(crate) fn string_from_utf8_lossy(b: &[u8]) -> (s: String)
    ensures
        s@ == utf8_lossy(b@),
        valid_utf8(b@) ==> s@ == decode_utf8(b@),
{
    String::from_utf8_lossy(b).into_owned()
}

/// The text a byte string decodes to: its characters when it is valid
/// UTF-8, else the replacement-character rendering.
pub open spec fn lossy_text(b: Seq<u8>) -> Seq<char> {
    if valid_utf8(b) {
        decode_utf8(b)
    } else {
        utf8_lossy(b)
    }
}

/// The text of the bytes of `b` before its first NUL.
pub fn zstr_text(b: &[u8]) -> (s: String)
    ensures
        s@ == lossy_text(before_nul(b@)),
{
    let n = nul_position(b);
    proof {
        lemma_first_nul(b@);
    }
    string_from_utf8_lossy(&b[0..n])
}

proof fn lemma_or_nonzero(a: u8, x: u8)
    requires
        a >= 0x80,
    ensures
        (a | x) != 0,
{
    assert((a | x) != 0) by (bit_vector)
        requires
            a >= 0x80,
    ;
}

/// The UTF-8 encoding of a character other than NUL has no zero byte.
proof fn lemma_scalar_no_nul(v: u32)
    requires
        is_scalar(v),
        v != 0,
    ensures
        forall|i: int| 0 <= i < encode_scalar(v).len() ==> encode_scalar(v)[i] != 0,
{
    let e = encode_scalar(v);
    if v <= 0x7F {
        assert((v & 0x7F) as u8 != 0) by (bit_vector)
            requires
                v != 0,
                v <= 0x7F,
        ;
    } else {
        assert forall|i: int| 0 <= i < e.len() implies e[i] != 0 by {
            if v <= 0x7FF {
                lemma_or_nonzero(0xC0, ((v >> 6) & 0x1F) as u8);
                lemma_or_nonzero(0x80, (v & 0x3F) as u8);
            } else if v <= 0xFFFF {
                lemma_or_nonzero(0xE0, ((v >> 12) & 0x0F) as u8);
                lemma_or_nonzero(0x80, ((v >> 6) & 0x3F) as u8);
                lemma_or_nonzero(0x80, (v & 0x3F) as u8);
            } else {
                lemma_or_nonzero(0xF0, ((v >> 18) & 0x7) as u8);
                lemma_or_nonzero(0x80, ((v >> 12) & 0x3F) as u8);
                lemma_or_nonzero(0x80, ((v >> 6) & 0x3F) as u8);
                lemma_or_nonzero(0x80, (v & 0x3F) as u8);
            }
        }
    }
}

/// The UTF-8 encoding of text without NUL characters has no zero byte.
pub proof fn lemma_encode_utf8_no_nul(v: Seq<char>)
    requires
        forall|i: int| 0 <= i < v.len() ==> v[i] != '\0',
    ensures
        forall|i: int| 0 <= i < encode_utf8(v).len() ==> encode_utf8(v)[i] != 0,
    decreases v.len(),
{
    if v.len() > 0 {
        let rest = v.drop_first();
        assert forall|i: int| 0 <= i < rest.len() implies rest[i] != '\0' by {
            assert(rest[i] == v[i + 1]);
        }
        lemma_encode_utf8_no_nul(rest);
        vstd::utf8::char_is_scalar(v[0]);
        if v[0] as u32 == 0 {
            vstd::utf8::char_u32_cast(v[0], 0);
            vstd::utf8::char_u32_cast('\0', 0);
        }
        lemma_scalar_no_nul(v[0] as u32);
        let e = encode_utf8(v);
        let h = encode_scalar(v[0] as u32);
        assert forall|i: int| 0 <= i < e.len() implies e[i] != 0 by {
            if i < h.len() {
                assert(e[i] == h[i]);
            } else {
                assert(e[i] == encode_utf8(rest)[i - h.len()]);
            }
        }
    }
}

/// A ZSTR made of NUL-free text and its terminator reads back as the
/// text.
#[verifier::spinoff_prover]
pub proof fn lemma_zstr_text_roundtrip(v: Seq<char>)
    requires
        forall|i: int| 0 <= i < v.len() ==> v[i] != '\0',
    ensures
        lossy_text(before_nul(encode_utf8(v) + seq![0u8])) == v,
{
    let e = encode_utf8(v);
    lemma_encode_utf8_no_nul(v);
    let z = e + seq![0u8];
    assert forall|i: int| 0 <= i < e.len() implies z[i] != 0 by {
        assert(z[i] == e[i]);
    }
    lemma_first_nul_at(z, e.len() as int);
    assert(before_nul(z) =~= e);
    encode_utf8_valid_utf8(v);
    encode_utf8_decode_utf8(v);
}

/// `String::push`: append one character.
#[verifier::external_body]
pub(crate) fn push_char(s: &mut String, c: char)
    ensures
        final(s)@ == old(s)@.push(c),
{
    s.push(c);
}

/// The lower-case hexadecimal digit of `d` (`d < 16`).
pub open spec fn hex_digit(d: u32) -> char {
    match d {
        0 => '0',
        1 => '1',
        2 => '2',
        3 => '3',
        4 => '4',
        5 => '5',
        6 => '6',
        7 => '7',
        8 => '8',
        9 => '9',
        10 => 'a',
        11 => 'b',
        12 => 'c',
        13 => 'd',
        14 => 'e',
        15 => 'f',
        _ => '?',
    }
}

/// The `w` lower-case hexadecimal digits of `v`, most significant first.
pub open spec fn hex_text(v: int, w: nat) -> Seq<char>
    decreases w,
{
    if w == 0 {
        Seq::empty()
    } else {
        hex_text(v / 16, (w - 1) as nat).push(hex_digit((v % 16) as u32))
    }
}

/// The lower-case hexadecimal digit of `d`.
pub fn hex_char(d: u32) -> (c: char)
    requires
        d < 16,
    ensures
        c == hex_digit(d),
{
    match d {
        0 => '0',
        1 => '1',
        2 => '2',
        3 => '3',
        4 => '4',
        5 => '5',
        6 => '6',
        7 => '7',
        8 => '8',
        9 => '9',
        10 => 'a',
        11 => 'b',
        12 => 'c',
        13 => 'd',
        14 => 'e',
        15 => 'f',
        _ => '?',
    }
}

/// Append the `w` lower-case hexadecimal digits of `v`.
pub fn push_hex(s: &mut String, v: u32, w: usize)
    ensures
        final(s)@ == old(s)@ + hex_text(v as int, w as nat),
    decreases w,
{
    if w > 0 {
        push_hex(s, v / 16, w - 1);
        push_char(s, hex_char(v % 16));
        assert(s@ =~= old(s)@ + hex_text(v as int, w as nat));
    } else {
        assert(old(s)@ + hex_text(v as int, 0) =~= old(s)@);
    }
}

} // verus!
