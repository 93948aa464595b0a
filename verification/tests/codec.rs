use twag::slug::{self, build_creation_redirect, decode, encode};
use twag::{Hex14, SlugError};

fn id(s: &str) -> Hex14 {
    Hex14::new(s).unwrap()
}

#[test]
fn test_decode_plain_slug() {
    let rs = decode("055B88A23C1250").unwrap();
    assert_eq!(rs.id.as_str(), "055B88A23C1250");
    assert_eq!(rs.tap_count, None);
}

#[test]
fn test_decode_slug_with_tap_count() {
    let rs = decode("055B88A23C1250x00000F").unwrap();
    assert_eq!(rs.id.as_str(), "055B88A23C1250");
    assert_eq!(rs.tap_count, Some(15));

    let rs = decode("055B88A23C1250x0000FF").unwrap();
    assert_eq!(rs.tap_count, Some(255));

    let rs = decode("055B88A23C1250xFFFFFF").unwrap();
    assert_eq!(rs.tap_count, Some(0xFFFFFF));

    let rs = decode("055B88A23C1250x000000").unwrap();
    assert_eq!(rs.tap_count, Some(0));
}

#[test]
fn test_decode_rejects_malformed_slugs() {
    // empty
    assert!(matches!(decode(""), Err(SlugError::MalformedSlug)));
    // 13- and 15-character hex runs
    assert!(matches!(decode("055B88A23C125"), Err(SlugError::MalformedSlug)));
    assert!(matches!(decode("055B88A23C12500"), Err(SlugError::MalformedSlug)));
    // lowercase hex runs
    assert!(matches!(decode("055b88a23c1250"), Err(SlugError::MalformedSlug)));
    assert!(matches!(
        decode("055B88A23C1250x00000f"),
        Err(SlugError::MalformedSlug)
    ));
    // separator with too few or too many digits
    assert!(matches!(decode("055B88A23C1250x0000F"), Err(SlugError::MalformedSlug)));
    assert!(matches!(
        decode("055B88A23C1250x000000F"),
        Err(SlugError::MalformedSlug)
    ));
    // wrong separator
    assert!(matches!(
        decode("055B88A23C1250y00000F"),
        Err(SlugError::MalformedSlug)
    ));
    // trailing garbage after a valid match
    assert!(matches!(
        decode("055B88A23C1250x00000F!"),
        Err(SlugError::MalformedSlug)
    ));
    assert!(matches!(decode("055B88A23C1250!"), Err(SlugError::MalformedSlug)));
}

#[test]
fn test_encode_renders_id_and_suffix() {
    assert_eq!(encode(&id("055B88A23C1250"), None), "055B88A23C1250");
    assert_eq!(encode(&id("055B88A23C1250"), Some(15)), "055B88A23C1250x00000F");
    assert_eq!(
        encode(&id("a1b2c3d4e5f678"), Some(0xABCDEF)),
        "A1B2C3D4E5F678xABCDEF"
    );
    assert_eq!(encode(&id("055B88A23C1250"), Some(0)), "055B88A23C1250x000000");
    assert_eq!(
        encode(&id("055B88A23C1250"), Some(0xFFFFFF)),
        "055B88A23C1250xFFFFFF"
    );
}

#[test]
fn test_slug_round_trip() {
    for tap in [None, Some(0u32), Some(1), Some(15), Some(0x00F00D), Some(0xFFFFFF)] {
        let original = id("055B88A23C1250");
        let slug = encode(&original, tap);
        let rs = decode(&slug).unwrap();
        assert_eq!(rs.id, original);
        assert_eq!(rs.tap_count, tap);
    }
}

#[test]
fn test_build_creation_redirect() {
    let url = build_creation_redirect(&id("055B88A23C1250"), Some(15));
    assert!(url.contains("tap_count=00000F"));
    assert_eq!(url, "/tag/create?id=055B88A23C1250&tap_count=00000F");

    let url = build_creation_redirect(&id("055B88A23C1250"), None);
    assert_eq!(url, "/tag/create?id=055B88A23C1250");
}

#[test]
fn test_hex14_parse_idempotent() {
    let first = Hex14::new("a1b2c3d4e5f678").unwrap();
    let second = Hex14::new(first.as_str()).unwrap();
    assert_eq!(first, second);
    assert_eq!(second.as_str(), "A1B2C3D4E5F678");
}

#[test]
fn test_parse_tap_count() {
    assert_eq!(slug::parse_tap_count("00000F"), Some(15));
    assert_eq!(slug::parse_tap_count("F"), Some(15));
    assert_eq!(slug::parse_tap_count("f"), Some(15));
    assert_eq!(slug::parse_tap_count("FFFFFF"), Some(0xFFFFFF));
    assert_eq!(slug::parse_tap_count("0"), Some(0));
    assert_eq!(slug::parse_tap_count(""), None);
    assert_eq!(slug::parse_tap_count("1234567"), None);
    assert_eq!(slug::parse_tap_count("12G"), None);
}

#[test]
fn test_tap_count_hex() {
    assert_eq!(slug::tap_count_hex(15), "00000F");
    assert_eq!(slug::tap_count_hex(0), "000000");
    assert_eq!(slug::tap_count_hex(0xABCDEF), "ABCDEF");
    assert_eq!(slug::tap_count_hex(0xFFFFFF), "FFFFFF");
}
