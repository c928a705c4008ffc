use destiny::index::{field_rows, signature_name};
use destiny::parser::{detect_signature, extract_strings, is_tag_hash, parse_bytes, Signature};

#[test]
fn detects_content_not_extension() {
    assert_eq!(parse_bytes(b"SEGF\x01abc").signature, Signature::Seg);
}

#[test]
fn detects_binary_8080_payload() {
    let mut b = vec![0u8; 20];
    b[0..4].copy_from_slice(&(20u32.to_be_bytes()));
    b[4..8].copy_from_slice(&0x81060d49u32.to_be_bytes());
    b[8..12].copy_from_slice(&0x80802797u32.to_be_bytes());
    let p = parse_bytes(&b);
    assert_eq!(p.signature, Signature::Definition8080);
    assert_eq!(p.tag_identifiers.len(), 1);
    assert_eq!(p.type_information.as_deref(), Some("0x81060d49"));
}

#[test]
fn unknown_is_safe() {
    let p = parse_bytes(&[0, 1, 2, 3]);
    assert_eq!(p.signature, Signature::Unknown);
    assert!(!p.hash.is_empty());
}

#[test]
fn extracts_strings() {
    assert_eq!(
        parse_bytes(b"xx hello world\0").strings[0].1,
        "xx hello world"
    );
}

#[test]
fn hash_is_lowercase_sha256_hex() {
    let p = parse_bytes(b"abc");
    assert_eq!(
        p.hash,
        "ba7816bf8f01cfea414140de5dae2223b00361a396177a9cb410ff61f20015ad"
    );
    assert_eq!(parse_bytes(&[]).hash.len(), 64);
}

#[test]
fn seg_magic_with_nul_and_confidence() {
    assert_eq!(detect_signature(b"SEG\0rest"), (Signature::Seg, 100));
    assert_eq!(detect_signature(b"SEGX"), (Signature::Text, 70));
    assert_eq!(detect_signature(b""), (Signature::Unknown, 0));
    assert_eq!(detect_signature(b"line one\r\nline\ttwo\x0c"), (Signature::Text, 70));
    assert_eq!(detect_signature(b"bell\x07"), (Signature::Unknown, 0));
}

#[test]
fn definition_needs_matching_length_and_tag() {
    // Length word does not match the file length.
    let mut b = vec![0u8; 20];
    b[0..4].copy_from_slice(&21u32.to_be_bytes());
    b[8..12].copy_from_slice(&0x80802797u32.to_be_bytes());
    assert_eq!(detect_signature(&b).0, Signature::Unknown);
    // A tag hash only in the second word does not count.
    let mut b = vec![0u8; 20];
    b[0..4].copy_from_slice(&20u32.to_be_bytes());
    b[4..8].copy_from_slice(&0x80802797u32.to_be_bytes());
    assert_eq!(detect_signature(&b).0, Signature::Unknown);
    // Too short.
    let mut b = vec![0u8; 12];
    b[0..4].copy_from_slice(&12u32.to_be_bytes());
    b[8..12].copy_from_slice(&0x80802797u32.to_be_bytes());
    assert_eq!(detect_signature(&b).0, Signature::Unknown);
    // Tag range edges.
    let mut b = vec![0u8; 16];
    b[0..4].copy_from_slice(&16u32.to_be_bytes());
    b[8..12].copy_from_slice(&0x80800001u32.to_be_bytes());
    assert_eq!(detect_signature(&b).0, Signature::Definition8080);
    b[8..12].copy_from_slice(&0x81ffffffu32.to_be_bytes());
    assert_eq!(detect_signature(&b).0, Signature::Definition8080);
    b[8..12].copy_from_slice(&0x80800000u32.to_be_bytes());
    assert_eq!(detect_signature(&b).0, Signature::Unknown);
    b[8..12].copy_from_slice(&0x82000000u32.to_be_bytes());
    assert_eq!(detect_signature(&b).0, Signature::Unknown);
}

#[test]
fn strings_are_maximal_runs_of_four_or_more() {
    let s = extract_strings(b"abc\0abcd\x01\tx y\xffend!");
    assert_eq!(s.len(), 3);
    assert_eq!(s[0], (4, "abcd".to_string()));
    assert_eq!(s[1], (9, "\tx y".to_string()));
    assert_eq!(s[2], (14, "end!".to_string()));
    assert!(extract_strings(b"").is_empty());
    assert!(extract_strings(b"abc").is_empty());
}

#[test]
fn header_candidates_are_little_endian_lengths() {
    let mut b = vec![0u8; 12];
    b[0..4].copy_from_slice(&5u32.to_le_bytes());
    b[4..8].copy_from_slice(&12u32.to_le_bytes());
    b[8..12].copy_from_slice(&11u32.to_le_bytes());
    let p = parse_bytes(&b);
    assert_eq!(p.fields.len(), 2);
    assert_eq!(p.fields[0].kind, "header_candidate");
    assert_eq!(p.fields[0].offset, 0);
    assert_eq!(p.fields[0].size, 4);
    assert_eq!(p.fields[0].value.as_deref(), Some("5"));
    assert_eq!(p.fields[1].offset, 8);
    assert_eq!(p.fields[1].value.as_deref(), Some("11"));
}

#[test]
fn header_candidates_stop_after_sixteen_words() {
    let b = vec![0u8; 80];
    let p = parse_bytes(&b);
    assert_eq!(p.fields.len(), 16);
    assert_eq!(p.fields[15].offset, 60);
}

#[test]
fn references_hold_hex_strings_and_late_tags() {
    let hex64 = "0123456789abcdef0123456789ABCDEF0123456789abcdef0123456789abcdef";
    let mut b = Vec::new();
    b.extend_from_slice(&0x80802797u32.to_be_bytes());
    b.extend_from_slice(&[0, 0, 0, 0]);
    b.extend_from_slice(&0x80802798u32.to_be_bytes());
    b.extend_from_slice(&0x80802799u32.to_be_bytes());
    b.push(0);
    b.extend_from_slice(hex64.as_bytes());
    b.push(0);
    let p = parse_bytes(&b);
    assert_eq!(
        p.tag_identifiers,
        vec![
            (0, "0x80802797".to_string()),
            (8, "0x80802798".to_string()),
            (12, "0x80802799".to_string())
        ]
    );
    assert_eq!(p.references.len(), 2);
    assert_eq!(p.references[0], (17, hex64.to_string()));
    assert_eq!(p.references[1], (12, "0x80802799".to_string()));
}

#[test]
fn warnings_for_unknown_and_stringless() {
    let p = parse_bytes(&[0, 1, 2, 3]);
    assert_eq!(
        p.warnings,
        vec![
            "No known signature; retained hash, bounded header candidates, and strings".to_string(),
            "No printable string table found".to_string()
        ]
    );
    assert!(parse_bytes(&[]).warnings.len() == 1);
    assert!(parse_bytes(b"hello world").warnings.is_empty());
}

#[test]
fn index_rows_follow_the_parsed_file() {
    let mut b = vec![0u8; 20];
    b[0..4].copy_from_slice(&(20u32.to_be_bytes()));
    b[4..8].copy_from_slice(&0x81060d49u32.to_be_bytes());
    b[8..12].copy_from_slice(&0x80802797u32.to_be_bytes());
    let p = parse_bytes(&b);
    let rows = field_rows(&p);
    assert_eq!(rows.len(), p.fields.len() + 2);
    let tag = &rows[p.fields.len()];
    assert_eq!(tag.kind, "tag_identifier");
    assert_eq!(tag.offset, 8);
    assert_eq!(tag.size, 4);
    assert_eq!(tag.value.as_deref(), Some("0x80802797"));
    let ty = &rows[p.fields.len() + 1];
    assert_eq!(ty.kind, "type_information");
    assert_eq!((ty.offset, ty.size), (4, 4));
    assert_eq!(ty.value.as_deref(), Some("0x81060d49"));
    assert_eq!(signature_name(p.signature), "Definition8080");
    assert_eq!(signature_name(Signature::Seg), "Seg");
}

#[test]
fn tag_hash_range_is_inclusive() {
    assert!(!is_tag_hash(0x8080_0000));
    assert!(is_tag_hash(0x8080_0001));
    assert!(is_tag_hash(0x81ff_ffff));
    assert!(!is_tag_hash(0x8200_0000));
}
