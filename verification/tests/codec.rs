use wazito_backend::Asset;

fn sample(updated_at: Option<u64>) -> Asset {
    Asset {
        id: 42,
        title: String::from("Map of the old town"),
        description: String::from("hand drawn, includes landmarks"),
        asset_url: String::from("https://example.test/maps/42"),
        price: 1250,
        creator_id: 7,
        created_at: 1_700_000_000,
        updated_at,
    }
}

#[test]
fn round_trip_without_update_stamp() {
    let a = sample(None);
    let bytes = a.to_bytes();
    let back = Asset::from_bytes(bytes.as_slice()).expect("own encoding must decode");
    assert_eq!(back, a);
}

#[test]
fn round_trip_with_update_stamp() {
    let a = sample(Some(1_700_000_999));
    let bytes = a.to_bytes();
    let back = Asset::from_bytes(bytes.as_slice()).expect("own encoding must decode");
    assert_eq!(back, a);
}

#[test]
fn round_trip_keeps_non_ascii_text() {
    let mut a = sample(None);
    a.title = String::from("carte de la ville — édition ancienne");
    a.description = String::from("地図");
    let bytes = a.to_bytes();
    let back = Asset::from_bytes(bytes.as_slice()).expect("own encoding must decode");
    assert_eq!(back, a);
}

#[test]
fn encoding_of_minimal_record_is_exact() {
    let a = Asset {
        id: 1,
        title: String::new(),
        description: String::new(),
        asset_url: String::new(),
        price: 2,
        creator_id: 3,
        created_at: 4,
        updated_at: None,
    };
    let bytes = a.to_bytes();
    let mut expected: Vec<u8> = Vec::new();
    expected.extend_from_slice(&[1, 0, 0, 0, 0, 0, 0, 0]);
    expected.extend_from_slice(&[2, 0, 0, 0, 0, 0, 0, 0]);
    expected.extend_from_slice(&[3, 0, 0, 0, 0, 0, 0, 0]);
    expected.extend_from_slice(&[4, 0, 0, 0, 0, 0, 0, 0]);
    expected.push(0);
    expected.extend_from_slice(&[0, 0, 0, 0, 0, 0, 0, 0]);
    expected.extend_from_slice(&[0, 0, 0, 0]);
    expected.extend_from_slice(&[0, 0, 0, 0]);
    expected.extend_from_slice(&[0, 0, 0, 0]);
    assert_eq!(bytes, expected);
    assert_eq!(bytes.len(), 53);
}

#[test]
fn encoding_embeds_utf8_strings_with_length_prefixes() {
    let a = Asset {
        id: 9,
        title: String::from("ab"),
        description: String::from("c"),
        asset_url: String::new(),
        price: 0,
        creator_id: 0,
        created_at: 0,
        updated_at: Some(5),
    };
    let bytes = a.to_bytes();
    assert_eq!(bytes.len(), 53 + 3);
    assert_eq!(bytes[32], 1);
    assert_eq!(&bytes[33..41], &[5, 0, 0, 0, 0, 0, 0, 0]);
    assert_eq!(&bytes[41..45], &[2, 0, 0, 0]);
    assert_eq!(&bytes[45..47], b"ab");
    assert_eq!(&bytes[47..51], &[1, 0, 0, 0]);
    assert_eq!(bytes[51], b'c');
    assert_eq!(&bytes[52..56], &[0, 0, 0, 0]);
}

#[test]
fn malformed_inputs_do_not_decode() {
    // Too short for the fixed-width fields.
    assert!(Asset::from_bytes(&[]).is_none());
    assert!(Asset::from_bytes(&[0u8; 40]).is_none());
    let good = sample(None).to_bytes();
    // An unknown presence tag.
    let mut bad_tag = good.clone();
    bad_tag[32] = 2;
    assert!(Asset::from_bytes(bad_tag.as_slice()).is_none());
    // An absent stamp must have all-zero value bytes.
    let mut stray_stamp = good.clone();
    stray_stamp[33] = 1;
    assert!(Asset::from_bytes(stray_stamp.as_slice()).is_none());
    // Trailing bytes past the last field.
    let mut trailing = good.clone();
    trailing.push(0);
    assert!(Asset::from_bytes(trailing.as_slice()).is_none());
    // A string field that is not valid UTF-8.
    let mut bad_utf8 = good.clone();
    bad_utf8[45] = 0xff;
    assert!(Asset::from_bytes(bad_utf8.as_slice()).is_none());
    // A truncated string field.
    let truncated = &good[..good.len() - 1];
    assert!(Asset::from_bytes(truncated).is_none());
}
