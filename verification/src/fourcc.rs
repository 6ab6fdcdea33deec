//! FourCC helpers: the 4-byte ASCII tags that identify every RIFF chunk.
use vstd::prelude::*;

use crate::text::{hex_text, push_char, push_hex};

verus! {

/// A byte is printable ASCII when it lies in `0x20..=0x7E`.
pub open spec fn is_printable_byte(b: u8) -> bool {
    0x20 <= b && b <= 0x7E
}

/// Every byte of the tag is printable ASCII.
pub open spec fn spec_is_printable_fourcc(tag: [u8; 4]) -> bool {
    forall|i: int| 0 <= i < 4 ==> #[trigger] is_printable_byte(tag@[i])
}

/// Convert a 4-byte ASCII literal into the wire byte array.
pub fn fourcc_bytes(s: &[u8; 4]) -> (r: [u8; 4])
    ensures
        r@ == s@,
{
    [s[0], s[1], s[2], s[3]]
}

/// The text of one tag byte: the character itself when printable,
/// `\xNN` (two lower-case hex digits) otherwise.
pub open spec fn byte_text(b: u8) -> Seq<char> {
    if is_printable_byte(b) {
        seq![b as char]
    } else {
        seq!['\\', 'x'] + hex_text(b as int, 2)
    }
}

/// The readable text of a tag: its four bytes' texts in order.
pub open spec fn fourcc_text(tag: [u8; 4]) -> Seq<char> {
    byte_text(tag[0]) + byte_text(tag[1]) + byte_text(tag[2]) + byte_text(tag[3])
}

/// Render a FourCC readably: printable ASCII bytes verbatim, any other
/// byte as `\xNN`.
pub fn fourcc_to_string(tag: &[u8; 4]) -> (s: String)
    ensures
        s@ == fourcc_text(*tag),
{
    let mut out = String::new();
    let mut i: usize = 0;
    assert(out@ =~= Seq::<char>::empty());
    while i < 4
        invariant
            i <= 4,
            out@ == (if i == 0 {
                Seq::<char>::empty()
            } else if i == 1 {
                byte_text(tag[0])
            } else if i == 2 {
                byte_text(tag[0]) + byte_text(tag[1])
            } else if i == 3 {
                byte_text(tag[0]) + byte_text(tag[1]) + byte_text(tag[2])
            } else {
                fourcc_text(*tag)
            }),
        decreases 4 - i,
    {
        let b = tag[i];
        let ghost before = out@;
        if 0x20 <= b && b <= 0x7E {
            push_char(&mut out, b as char);
            assert(out@ =~= before + byte_text(b));
        } else {
            push_char(&mut out, '\\');
            push_char(&mut out, 'x');
            push_hex(&mut out, b as u32, 2);
            assert(out@ =~= before + byte_text(b));
        }
        proof {
            if i == 0 {
                assert(before + byte_text(b) =~= byte_text(tag[0]));
            }
        }
        i += 1;
    }
    out
}

/// `true` if every byte of the FourCC is printable ASCII (`0x20..=0x7E`).
pub fn is_printable_fourcc(tag: &[u8; 4]) -> (r: bool)
    ensures
        r == spec_is_printable_fourcc(*tag),
{
    let mut i: usize = 0;
    while i < 4
        invariant
            i <= 4,
            forall|j: int| 0 <= j < i ==> #[trigger] is_printable_byte(tag@[j]),
        decreases 4 - i,
    {
        let b = tag[i];
        if b < 0x20 || b > 0x7E {
            assert(!is_printable_byte(tag@[i as int]));
            return false;
        }
        i += 1;
    }
    true
}

/// A tag of printable ASCII bytes renders as exactly its four
/// characters.
pub proof fn lemma_printable_fourcc_text(tag: [u8; 4])
    requires
        spec_is_printable_fourcc(tag),
    ensures
        fourcc_text(tag) == seq![tag[0] as char, tag[1] as char, tag[2] as char, tag[3] as char],
{
    assert(is_printable_byte(tag@[0]) && is_printable_byte(tag@[1]));
    assert(is_printable_byte(tag@[2]) && is_printable_byte(tag@[3]));
    assert(fourcc_text(tag) =~= seq![tag[0] as char, tag[1] as char, tag[2] as char, tag[3] as char]);
}

} // verus!
