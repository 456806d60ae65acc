use workingcopy::hgid::HgId;

const EMPTY_TREE_HEX: &str = "4b825dc642cb6eb9a060e54bf8d69288fbee4904";

fn sample() -> HgId {
    let mut bytes = [0u8; 20];
    for (i, b) in bytes.iter_mut().enumerate() {
        *b = (i as u8) * 13 + 7;
    }
    HgId::from_byte_array(bytes)
}

#[test]
fn sentinels_have_their_reserved_bytes() {
    assert_eq!(HgId::null_id().into_byte_array(), [0u8; 20]);
    assert_eq!(HgId::wdir_id().into_byte_array(), [0xffu8; 20]);
    assert!(HgId::null_id().is_null());
    assert!(!HgId::null_id().is_wdir());
    assert!(HgId::wdir_id().is_wdir());
    assert!(!HgId::wdir_id().is_null());
    assert!(!sample().is_null());
    assert!(!sample().is_wdir());
}

#[test]
fn nearly_reserved_values_are_ordinary() {
    let mut bytes = [0u8; 20];
    bytes[19] = 1;
    assert!(!HgId::from_byte_array(bytes).is_null());
    let mut bytes = [0xffu8; 20];
    bytes[0] = 0xfe;
    assert!(!HgId::from_byte_array(bytes).is_wdir());
}

#[test]
fn hex_form_is_lower_case_high_half_first() {
    assert_eq!(HgId::null_id().to_hex(), "0".repeat(40));
    assert_eq!(HgId::wdir_id().to_hex(), "f".repeat(40));
    assert_eq!(HgId::git_empty_tree_id().to_hex(), EMPTY_TREE_HEX);
    assert_eq!(sample().to_hex(), "0714212e3b4855626f7c8996a3b0bdcad7e4f1fe");
    assert_eq!(sample().to_hex_bytes(), sample().to_hex().into_bytes());
}

#[test]
fn reads_hex_of_either_case() {
    assert_eq!(HgId::from_hex(EMPTY_TREE_HEX.as_bytes()), Some(HgId::git_empty_tree_id()));
    assert_eq!(
        HgId::from_hex(EMPTY_TREE_HEX.to_uppercase().as_bytes()),
        Some(HgId::git_empty_tree_id())
    );
    assert_eq!(HgId::from_hex(sample().to_hex().as_bytes()), Some(sample()));
}

#[test]
fn rejects_what_is_not_forty_hex_digits() {
    assert_eq!(HgId::from_hex(b""), None);
    assert_eq!(HgId::from_hex(&EMPTY_TREE_HEX.as_bytes()[..39]), None);
    assert_eq!(HgId::from_hex(format!("{}0", EMPTY_TREE_HEX).as_bytes()), None);
    assert_eq!(HgId::from_hex(b"4b825dc642cb6eb9a060e54bf8d69288fbee490g"), None);
    assert_eq!(HgId::from_hex(b"4b825dc642cb6eb9a060e54bf8d69288fbee490 "), None);
    assert_eq!(HgId::from_hex(b"/b825dc642cb6eb9a060e54bf8d69288fbee4904"), None);
    assert_eq!(HgId::from_hex(b":b825dc642cb6eb9a060e54bf8d69288fbee4904"), None);
    assert_eq!(HgId::from_hex(b"@b825dc642cb6eb9a060e54bf8d69288fbee4904"), None);
    assert_eq!(HgId::from_hex(b"Gb825dc642cb6eb9a060e54bf8d69288fbee4904"), None);
    assert_eq!(HgId::from_hex(b"`b825dc642cb6eb9a060e54bf8d69288fbee4904"), None);
}

#[test]
fn same_compares_all_bytes() {
    let a = sample();
    let mut bytes = a.into_byte_array();
    assert!(a.same(&HgId::from_byte_array(bytes)));
    bytes[19] ^= 1;
    assert!(!a.same(&HgId::from_byte_array(bytes)));
    assert_ne!(a, HgId::from_byte_array(bytes));
}

#[test]
fn hex_round_trip_over_many_values() {
    for seed in 0..=255u8 {
        let mut bytes = [0u8; 20];
        for (i, b) in bytes.iter_mut().enumerate() {
            *b = seed.wrapping_mul(31).wrapping_add((i as u8).wrapping_mul(17));
        }
        let id = HgId::from_byte_array(bytes);
        assert_eq!(HgId::from_hex(&id.to_hex_bytes()), Some(id));
    }
}
