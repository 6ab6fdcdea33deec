use oxideav_riff::chunk::encode_chunk;
use oxideav_riff::tree::{ByteOrder, RiffChunk, RiffTree, MAX_DEPTH};
/// RIFF/WAVE { fmt(4) data(3→pad) LIST(INFO){ INAM("Hi") } }
fn sample_wave() -> Vec<u8> {
    let mut info = Vec::new();
    // LIST body = "INFO" + INAM chunk
    info.extend_from_slice(b"INFO");
    encode_chunk(&mut info, b"INAM", b"Hi").unwrap();
    let mut body = Vec::new();
    body.extend_from_slice(b"WAVE");
    encode_chunk(&mut body, b"fmt ", &[0x01, 0x00, 0x02, 0x00]).unwrap();
    encode_chunk(&mut body, b"data", &[0xAA, 0xBB, 0xCC]).unwrap();
    encode_chunk(&mut body, b"LIST", &info).unwrap();
    let mut out = Vec::new();
    encode_chunk(&mut out, b"RIFF", &body).unwrap();
    out
}

#[test]
fn parse_then_encode_is_byte_exact() {
    let bytes = sample_wave();
    let tree = RiffTree::parse(&bytes).unwrap();
    assert_eq!(&tree.form_type, b"WAVE");
    assert_eq!(tree.children.len(), 3);
    let round = tree.encode().unwrap();
    assert_eq!(round, bytes);
}

#[test]
fn nested_list_is_descended_recursively() {
    let bytes = sample_wave();
    let tree = RiffTree::parse(&bytes).unwrap();
    let list = tree.find_list(b"INFO").expect("INFO list present");
    match list {
        RiffChunk::Group {
            id,
            form_type,
            children,
        } => {
            assert_eq!(id, b"LIST");
            assert_eq!(form_type, b"INFO");
            assert_eq!(children.len(), 1);
            match &children[0] {
                RiffChunk::Leaf { id, body } => {
                    assert_eq!(id, b"INAM");
                    assert_eq!(body, b"Hi");
                }
                _ => panic!("INAM should be a leaf"),
            }
        }
        _ => panic!("INFO list should be a group"),
    }
}

#[test]
fn find_locates_a_deep_leaf() {
    let bytes = sample_wave();
    let tree = RiffTree::parse(&bytes).unwrap();
    // INAM is two levels deep (RIFF > LIST > INAM).
    let inam = tree.find(b"INAM").expect("INAM found");
    assert_eq!(inam.id(), *b"INAM");
    assert_eq!(inam.children(), &[]);
    // A leaf at the top level.
    let fmt = tree.find(b"fmt ").unwrap();
    assert_eq!(fmt.id(), *b"fmt ");
}

#[test]
fn editing_a_leaf_and_re_encoding_keeps_other_chunks() {
    let bytes = sample_wave();
    let mut tree = RiffTree::parse(&bytes).unwrap();
    // Replace the data chunk body with a longer one.
    for child in &mut tree.children {
        if let RiffChunk::Leaf { id, body } = child {
            if id == b"data" {
                *body = vec![0x11, 0x22, 0x33, 0x44];
            }
        }
    }
    let out = tree.encode().unwrap();
    // Re-parse and confirm the untouched fmt + INFO survived.
    let re = RiffTree::parse(&out).unwrap();
    assert_eq!(re.find(b"fmt ").unwrap().id(), *b"fmt ");
    assert_eq!(re.find_list(b"INFO").unwrap().id(), *b"LIST");
    match re.find(b"data").unwrap() {
        RiffChunk::Leaf { body, .. } => assert_eq!(body, &[0x11, 0x22, 0x33, 0x44]),
        _ => panic!(),
    }
}

#[test]
fn rejects_non_riff_magic() {
    let mut bytes = sample_wave();
    bytes[0] = b'X';
    let err = RiffTree::parse(&bytes).unwrap_err();
    assert!(err.to_string().contains("neither 'RIFF' nor 'RIFX'"));
}

#[test]
fn rejects_outer_size_overrun() {
    let mut bytes = sample_wave();
    // Bump outer ckSize past the buffer.
    let huge = (bytes.len() as u32).to_le_bytes();
    bytes[4..8].copy_from_slice(&huge); // ckSize == full len (too big: includes hdr)
    let err = RiffTree::parse(&bytes).unwrap_err();
    assert!(err.to_string().contains("overruns"));
}

#[test]
fn rejects_child_overflowing_parent() {
    let mut body = Vec::new();
    body.extend_from_slice(b"WAVE");
    body.extend_from_slice(b"data");
    body.extend_from_slice(&1_000_000u32.to_le_bytes()); // lies
    let mut bytes = Vec::new();
    encode_chunk(&mut bytes, b"RIFF", &body).unwrap();
    let err = RiffTree::parse(&bytes).unwrap_err();
    assert!(err.to_string().contains("overflows parent"));
}

#[test]
fn tolerates_trailing_bytes_after_outer_chunk() {
    let mut bytes = sample_wave();
    bytes.extend_from_slice(b"junkjunk"); // trailing slop
    let tree = RiffTree::parse(&bytes).unwrap();
    // The re-encode is the canonical chunk WITHOUT the slop.
    let round = tree.encode().unwrap();
    assert_eq!(round, &bytes[..round.len()]);
}

#[test]
fn ck_size_and_padded_size_match_encode() {
    let bytes = sample_wave();
    let tree = RiffTree::parse(&bytes).unwrap();
    for i in 0..tree.children.len() {
        // Encode each child on its own inside a fresh outer chunk: the
        // encoding grows by exactly the child's padded outer size.
        let mut single = RiffTree::parse(&bytes).unwrap();
        let child = single.children.remove(i);
        let expected = child.padded_outer_size();
        single.children = vec![child];
        let buf = single.encode().unwrap();
        assert_eq!(buf.len() as u64 - 12, expected);
    }
}

#[test]
fn empty_group_round_trips() {
    // RIFF/WAVE { LIST(INFO){} } — an empty INFO list.
    let mut body = Vec::new();
    body.extend_from_slice(b"WAVE");
    encode_chunk(&mut body, b"LIST", b"INFO").unwrap();
    let mut bytes = Vec::new();
    encode_chunk(&mut bytes, b"RIFF", &body).unwrap();
    let tree = RiffTree::parse(&bytes).unwrap();
    let list = tree.find_list(b"INFO").unwrap();
    assert_eq!(list.children().len(), 0);
    assert_eq!(tree.encode().unwrap(), bytes);
}

#[test]
fn max_depth_guard_rejects_pathological_nesting() {
    // Build MAX_DEPTH+2 nested LISTs to trip the guard.
    let mut inner = Vec::new();
    inner.extend_from_slice(b"sub ");
    for _ in 0..(MAX_DEPTH + 2) {
        let mut wrap = Vec::new();
        wrap.extend_from_slice(b"sub ");
        encode_chunk(&mut wrap, b"LIST", &inner).unwrap();
        inner = wrap;
    }
    let mut bytes = Vec::new();
    encode_chunk(&mut bytes, b"RIFF", &inner).unwrap();
    let err = RiffTree::parse(&bytes).unwrap_err();
    assert!(err.to_string().contains("MAX_DEPTH"));
}

#[test]
fn find_mut_edits_a_deep_leaf_in_place() {
    let bytes = sample_wave();
    let mut tree = RiffTree::parse(&bytes).unwrap();
    // Mutate the nested INAM leaf body via find_mut.
    match tree.find_mut(b"INAM").unwrap() {
        RiffChunk::Leaf { body, .. } => *body = b"Bye!".to_vec(),
        _ => panic!(),
    }
    let out = tree.encode().unwrap();
    let re = RiffTree::parse(&out).unwrap();
    match re.find(b"INAM").unwrap() {
        RiffChunk::Leaf { body, .. } => assert_eq!(body, b"Bye!"),
        _ => panic!(),
    }
    // Other chunks unaffected.
    assert_eq!(re.find(b"fmt ").unwrap().id(), *b"fmt ");
}

#[test]
fn children_mut_inserts_and_reorders() {
    let bytes = sample_wave();
    let mut tree = RiffTree::parse(&bytes).unwrap();
    // Append a new leaf at the top level.
    tree.children.push(RiffChunk::Leaf {
        id: *b"new ",
        body: vec![0xFF, 0xEE],
    });
    // children_mut on the INFO list: append a tag.
    let list = tree.find_mut(b"LIST").unwrap();
    list.children_mut().unwrap().push(RiffChunk::Leaf {
        id: *b"IART",
        body: vec![b'X', 0],
    });
    // Re-encode + re-parse keeps everything consistent.
    let out = tree.encode().unwrap();
    let re = RiffTree::parse(&out).unwrap();
    assert!(re.find(b"new ").is_some());
    assert_eq!(re.find_list(b"INFO").unwrap().children().len(), 2);
}

#[test]
fn odd_then_even_child_pad_accounting() {
    // RIFF/WAVE { odd(3→pad) even(2) } — the pad byte after the odd
    // first child must be consumed so the second child's header lands
    // on the 2-byte boundary.
    let mut body = Vec::new();
    body.extend_from_slice(b"WAVE");
    encode_chunk(&mut body, b"odd ", &[1, 2, 3]).unwrap(); // 3-byte → pad
    encode_chunk(&mut body, b"evn ", &[4, 5]).unwrap();
    let mut bytes = Vec::new();
    encode_chunk(&mut bytes, b"RIFF", &body).unwrap();
    let tree = RiffTree::parse(&bytes).unwrap();
    assert_eq!(tree.children.len(), 2);
    match &tree.children[0] {
        RiffChunk::Leaf { id, body } => {
            assert_eq!(id, b"odd ");
            assert_eq!(body, &[1, 2, 3]); // body is the un-padded 3 bytes
        }
        _ => panic!(),
    }
    match &tree.children[1] {
        RiffChunk::Leaf { id, body } => {
            assert_eq!(id, b"evn ");
            assert_eq!(body, &[4, 5]);
        }
        _ => panic!(),
    }
    assert_eq!(tree.encode().unwrap(), bytes);
}

#[test]
fn truncated_residual_bytes_rejected() {
    // A parent whose payload ends 3 bytes into what should be the
    // next 8-byte header → truncated.
    let mut body = Vec::new();
    body.extend_from_slice(b"WAVE");
    encode_chunk(&mut body, b"data", &[0; 4]).unwrap();
    body.extend_from_slice(&[1, 2, 3]); // 3 stray bytes, not a header
    let mut bytes = Vec::new();
    encode_chunk(&mut bytes, b"RIFF", &body).unwrap();
    let err = RiffTree::parse(&bytes).unwrap_err();
    assert!(err.to_string().contains("too short for a chunk header"));
}





#[test]
fn find_all_collects_repeated_fourccs() {
    // RIFF/WAVE { LIST(INFO){ INAM IART } LIST(adtl){} }
    let mut info = Vec::new();
    info.extend_from_slice(b"INFO");
    encode_chunk(&mut info, b"INAM", b"Hi").unwrap();
    encode_chunk(&mut info, b"IART", b"X").unwrap();
    let mut adtl = Vec::new();
    adtl.extend_from_slice(b"adtl");
    let mut body = Vec::new();
    body.extend_from_slice(b"WAVE");
    encode_chunk(&mut body, b"LIST", &info).unwrap();
    encode_chunk(&mut body, b"LIST", &adtl).unwrap();
    let mut bytes = Vec::new();
    encode_chunk(&mut bytes, b"RIFF", &body).unwrap();

    let tree = RiffTree::parse(&bytes).unwrap();
    // Two LIST chunks at the top level.
    let lists = tree.find_all(b"LIST");
    assert_eq!(lists.len(), 2);
    // INAM + IART are deeper leaves; one each.
    assert_eq!(tree.find_all(b"INAM").len(), 1);
    assert_eq!(tree.find_all(b"IART").len(), 1);
    // No match → empty.
    assert!(tree.find_all(b"data").is_empty());
}

/// Hand-build a `RIFX`/`WAVE { fmt(4) data(3→pad) }` with big-endian
/// `ckSize` words so the parser must read Motorola order.
fn sample_rifx() -> Vec<u8> {
    let mut v = Vec::new();
    // outer ckSize (big-endian): WAVE(4) + fmt hdr(8)+body(4)
    //   + data hdr(8)+body(3)+pad(1) = 28
    v.extend_from_slice(b"RIFX");
    v.extend_from_slice(&28u32.to_be_bytes());
    v.extend_from_slice(b"WAVE");
    v.extend_from_slice(b"fmt ");
    v.extend_from_slice(&4u32.to_be_bytes());
    v.extend_from_slice(&[0x01, 0x00, 0x02, 0x00]);
    v.extend_from_slice(b"data");
    v.extend_from_slice(&3u32.to_be_bytes());
    v.extend_from_slice(&[0xAA, 0xBB, 0xCC]);
    v.push(0); // pad
    v
}

#[test]
fn rifx_parses_big_endian_sizes() {
    let bytes = sample_rifx();
    let tree = RiffTree::parse(&bytes).unwrap();
    assert_eq!(tree.byte_order, ByteOrder::BigEndian);
    assert_eq!(&tree.form_type, b"WAVE");
    assert_eq!(tree.children.len(), 2);
    match tree.find(b"data").unwrap() {
        RiffChunk::Leaf { body, .. } => assert_eq!(body, &[0xAA, 0xBB, 0xCC]),
        _ => panic!(),
    }
}

#[test]
fn rifx_round_trips_byte_exact() {
    let bytes = sample_rifx();
    let tree = RiffTree::parse(&bytes).unwrap();
    // Re-encode must preserve the RIFX magic + big-endian sizes.
    assert_eq!(tree.encode().unwrap(), bytes);
}

#[test]
fn riff_byte_order_is_little_endian() {
    let bytes = sample_wave();
    let tree = RiffTree::parse(&bytes).unwrap();
    assert_eq!(tree.byte_order, ByteOrder::LittleEndian);
    assert_eq!(tree.byte_order.magic(), *b"RIFF");
}

#[test]
fn byte_order_magic_pairs() {
    assert_eq!(ByteOrder::LittleEndian.magic(), *b"RIFF");
    assert_eq!(ByteOrder::BigEndian.magic(), *b"RIFX");
}

#[test]
fn tree_ck_size_of_leaf_and_group() {
    let bytes = sample_wave();
    let tree = RiffTree::parse(&bytes).unwrap();
    assert_eq!(tree.children[1].ck_size(), 3);
    assert_eq!(tree.children[1].padded_outer_size(), 12);
    assert!(tree.children[2].is_group());
    assert_eq!(tree.children[2].ck_size(), 4 + 8 + 2);
}

#[test]
fn tree_rejects_empty_and_tiny_inputs() {
    assert!(RiffTree::parse(&[]).is_err());
    assert!(RiffTree::parse(b"RIFF\x02\x00\x00\x00WA").is_err());
}

#[test]
fn tree_find_returns_what_find_mut_wrote() {
    let bytes = sample_wave();
    let mut tree = RiffTree::parse(&bytes).unwrap();
    *tree.find_mut(b"data").unwrap() = RiffChunk::Leaf { id: *b"data", body: vec![7, 7] };
    assert_eq!(tree.find(b"data").unwrap(), &RiffChunk::Leaf { id: *b"data", body: vec![7, 7] });
    let enc = tree.encode().unwrap();
    assert_eq!(RiffTree::parse(&enc).unwrap(), tree);
}

#[test]
fn nested_rifx_with_odd_leaf_reencodes_exactly() {
    // RIFX / TEST { LIST(abcd){ odd(1) + pad } even(2) }, big-endian sizes.
    let mut v = Vec::new();
    v.extend_from_slice(b"RIFX");
    v.extend_from_slice(&36u32.to_be_bytes());
    v.extend_from_slice(b"TEST");
    v.extend_from_slice(b"LIST");
    v.extend_from_slice(&14u32.to_be_bytes());
    v.extend_from_slice(b"abcd");
    v.extend_from_slice(b"odd ");
    v.extend_from_slice(&1u32.to_be_bytes());
    v.extend_from_slice(&[0x7F, 0x00]);
    v.extend_from_slice(b"even");
    v.extend_from_slice(&2u32.to_be_bytes());
    v.extend_from_slice(&[0x01, 0x02]);
    let tree = RiffTree::parse(&v).unwrap();
    assert_eq!(tree.children.len(), 2);
    assert_eq!(tree.encode().unwrap(), v);
}

#[test]
fn nonzero_pad_byte_is_normalised_on_reencode() {
    // The pad byte after an odd leaf is skipped on parse; the encoder
    // always writes zero, so such a file is not byte-for-byte canonical.
    let mut v = Vec::new();
    v.extend_from_slice(b"RIFF");
    v.extend_from_slice(&14u32.to_le_bytes());
    v.extend_from_slice(b"WAVE");
    v.extend_from_slice(b"odd ");
    v.extend_from_slice(&1u32.to_le_bytes());
    v.extend_from_slice(&[0x55, 0xEE]);
    let tree = RiffTree::parse(&v).unwrap();
    let out = tree.encode().unwrap();
    assert_eq!(out.len(), v.len());
    assert_eq!(out[..21], v[..21]);
    assert_eq!(out[21], 0);
}
