use oxideav_riff::fourcc::{fourcc_bytes, fourcc_to_string, is_printable_fourcc};
#[test]
fn fourcc_bytes_basic() {
    assert_eq!(fourcc_bytes(b"RIFF"), [b'R', b'I', b'F', b'F']);
    assert_eq!(fourcc_bytes(b"LIST"), [b'L', b'I', b'S', b'T']);
    assert_eq!(fourcc_bytes(b"AVI "), [b'A', b'V', b'I', b' ']);
}

#[test]
fn fourcc_to_string_printable() {
    assert_eq!(fourcc_to_string(b"RIFF"), "RIFF");
    assert_eq!(fourcc_to_string(b"WAVE"), "WAVE");
    assert_eq!(fourcc_to_string(b"AVI "), "AVI ");
    assert_eq!(fourcc_to_string(b"fmt "), "fmt ");
    // Whole boundary range — every printable ASCII byte round-trips.
    for b in 0x20u8..=0x7E {
        let s = fourcc_to_string(&[b, b, b, b]);
        assert_eq!(s.chars().count(), 4);
    }
}

#[test]
fn fourcc_to_string_escapes_unprintable() {
    assert_eq!(
        fourcc_to_string(&[0x00, 0x00, 0x00, 0x00]),
        r"\x00\x00\x00\x00"
    );
    assert_eq!(
        fourcc_to_string(&[0xFF, 0xFE, 0x00, 0x7F]),
        r"\xff\xfe\x00\x7f"
    );
    // Mixed printable + non-printable.
    assert_eq!(fourcc_to_string(&[b'a', 0x01, b'B', 0x80]), r"a\x01B\x80");
}

#[test]
fn is_printable_fourcc_basic() {
    assert!(is_printable_fourcc(b"RIFF"));
    assert!(is_printable_fourcc(b"fmt "));
    assert!(is_printable_fourcc(b"    "));
    assert!(is_printable_fourcc(b"~~~~"));
    assert!(!is_printable_fourcc(&[0x1F, b'A', b'B', b'C']));
    assert!(!is_printable_fourcc(&[b'A', b'B', b'C', 0x7F]));
    assert!(!is_printable_fourcc(&[0xFF, 0xFE, 0xFD, 0xFC]));
    // The literal value at the boundary (0x20 space, 0x7E tilde) is allowed.
    assert!(is_printable_fourcc(&[0x20, 0x7E, 0x20, 0x7E]));
}

#[test]
fn fourcc_to_string_boundary_bytes() {
    assert_eq!(fourcc_to_string(&[0x1F, 0x20, 0x7E, 0x7F]), r"\x1f ~\x7f");
    assert_eq!(fourcc_to_string(&[0xAB, b'z', b'0', 0x0A]), r"\xabz0\x0a");
}
