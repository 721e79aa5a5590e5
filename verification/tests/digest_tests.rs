use map_types::digest::{sha256_digest, Digestable};
use map_types::position::{Position4, Position6Cube};
use map_types::transport::{Change, ChangeMessage, EntityChange};
use sha2::Digest;

fn sha256(bytes: &[u8]) -> [u8; 32] {
    let mut h = sha2::Sha256::new();
    h.update(bytes);
    h.finalize().into()
}

fn encode<T: Digestable>(v: &T) -> Vec<u8> {
    let mut out: Vec<u8> = Vec::new();
    v.update_le(&mut out);
    out
}

#[test]
fn sha256_digest_matches_known_vectors() {
    let empty = sha256_digest(&[]);
    let expected_empty: [u8; 32] = [
        0xe3, 0xb0, 0xc4, 0x42, 0x98, 0xfc, 0x1c, 0x14, 0x9a, 0xfb, 0xf4, 0xc8, 0x99, 0x6f, 0xb9,
        0x24, 0x27, 0xae, 0x41, 0xe4, 0x64, 0x9b, 0x93, 0x4c, 0xa4, 0x95, 0x99, 0x1b, 0x78, 0x52,
        0xb8, 0x55,
    ];
    assert_eq!(empty, expected_empty);

    let abc = sha256_digest(b"abc");
    let expected_abc: [u8; 32] = [
        0xba, 0x78, 0x16, 0xbf, 0x8f, 0x01, 0xcf, 0xea, 0x41, 0x41, 0x40, 0xde, 0x5d, 0xae, 0x22,
        0x23, 0xb0, 0x03, 0x61, 0xa3, 0x96, 0x17, 0x7a, 0x9c, 0xb4, 0x10, 0xff, 0x61, 0xf2, 0x00,
        0x15, 0xad,
    ];
    assert_eq!(abc, expected_abc);
}

#[test]
fn integer_encodings_are_little_endian() {
    assert_eq!(encode(&0x0102u16), vec![0x02, 0x01]);
    assert_eq!(encode(&0x01020304u32), vec![0x04, 0x03, 0x02, 0x01]);
    assert_eq!(encode(&1u64), vec![1, 0, 0, 0, 0, 0, 0, 0]);
    assert_eq!(encode(&0x7fu8), vec![0x7f]);
    assert_eq!(encode(&(-1i16)), vec![0xff, 0xff]);
    assert_eq!(encode(&(-2i8)), vec![0xfe]);
    assert_eq!(encode(&(-1i32)), vec![0xff; 4]);
    assert_eq!(encode(&(-1i64)), vec![0xff; 8]);
    assert_eq!(encode(&(-1i128)), vec![0xff; 16]);
    assert_eq!(encode(&1u128), {
        let mut v = vec![1u8];
        v.extend(std::iter::repeat(0u8).take(15));
        v
    });
}

#[test]
fn option_encoding_distinguishes_absent_from_present() {
    let absent: Option<u8> = None;
    let present: Option<u8> = Some(0);
    assert_eq!(encode(&absent), vec![0]);
    assert_eq!(encode(&present), vec![1, 0]);
    assert_ne!(encode(&absent), encode(&present));
}

#[test]
fn string_encoding_is_utf8_bytes() {
    assert_eq!(encode(&String::from("tree")), b"tree".to_vec());
    assert_eq!(encode(&String::new()), Vec::<u8>::new());
}

#[test]
fn sequence_encoding_concatenates_in_order() {
    let v: Vec<u16> = vec![0x0102, 0x0304];
    assert_eq!(encode(&v), vec![0x02, 0x01, 0x04, 0x03]);
    let id = [7u8; 32];
    assert_eq!(encode(&id), vec![7u8; 32]);
}

#[test]
fn change_digest_isolates_parent_list_in_sub_digest() {
    // A change with no parents and no entity patches: its canonical
    // encoding is the SHA-256 of the empty parent encoding, and nothing
    // else.
    let c: Change<Position4> = Change { parents: vec![], changes: vec![] };
    let expected_inner = sha256(&[]);
    assert_eq!(encode(&c), expected_inner.to_vec());
    let m = ChangeMessage::from_change(c);
    assert_eq!(m.sha256, sha256(&expected_inner));
}

#[test]
fn verification_accepts_own_identifier_and_rejects_tampering() {
    let m = ChangeMessage::from_change(Change::<Position4> {
        parents: vec![],
        changes: vec![EntityChange {
            id: 5,
            ent_type: None,
            variant: None,
            orientation: Some(3),
            base_position: None,
            elements: None,
        }],
    });
    assert!(m.verify());
    let mut tampered = m.clone();
    tampered.sha256[0] ^= 1;
    assert!(!tampered.verify());
    let mut altered = m.clone();
    altered.change.changes[0].orientation = Some(4);
    assert!(!altered.verify());
}

#[test]
fn cube_positions_differing_in_any_component_encode_differently() {
    let a = Position6Cube { x: 1, y: 2, z: 7 };
    let b = Position6Cube { x: 1, y: 2, z: 8 };
    assert_ne!(encode(&a), encode(&b));
}

#[test]
fn digest_is_deterministic_for_identical_changes() {
    let build = || Change::<Position4> {
        parents: vec![[3u8; 32]],
        changes: vec![EntityChange {
            id: 9,
            ent_type: Some(String::from("rock")),
            variant: Some(2),
            orientation: None,
            base_position: Some(Position4 { x: -4, y: 11 }),
            elements: Some(None),
        }],
    };
    let m1 = ChangeMessage::from_change(build());
    let m2 = ChangeMessage::from_change(build());
    assert_eq!(m1.sha256, m2.sha256);
}

#[test]
fn digest_differs_for_structurally_different_changes() {
    let base = || Change::<Position4> {
        parents: vec![],
        changes: vec![EntityChange {
            id: 1,
            ent_type: None,
            variant: None,
            orientation: None,
            base_position: None,
            elements: None,
        }],
    };
    let m_base = ChangeMessage::from_change(base());
    let mut with_variant = base();
    with_variant.changes[0].variant = Some(0);
    let m_variant = ChangeMessage::from_change(with_variant);
    assert_ne!(m_base.sha256, m_variant.sha256);

    let mut cleared_elements = base();
    cleared_elements.changes[0].elements = Some(None);
    let m_cleared = ChangeMessage::from_change(cleared_elements);
    assert_ne!(m_base.sha256, m_cleared.sha256);

    let mut replaced_elements = base();
    replaced_elements.changes[0].elements = Some(Some(vec![]));
    let m_replaced = ChangeMessage::from_change(replaced_elements);
    assert_ne!(m_cleared.sha256, m_replaced.sha256);
}
