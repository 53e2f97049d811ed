//! Tests of the identifier text form.
use backdrop::ident::{format_id, parse_id};

#[test]
fn format_matches_conventional_uuid_text() {
    let x: u128 = 0xa1a2a3a4b1b2c1c2d1d2d3d4d5d6d7d8;
    let text = format_id(x);
    assert_eq!(text, b"a1a2a3a4-b1b2-c1c2-d1d2-d3d4d5d6d7d8".to_vec());
    // The uuid crate renders the same value the same way.
    let u = uuid::Uuid::from_u128(x);
    assert_eq!(text, u.to_string().into_bytes());
}

#[test]
fn format_of_small_value_pads_with_zeros() {
    assert_eq!(
        format_id(1),
        b"00000000-0000-0000-0000-000000000001".to_vec()
    );
}

#[test]
fn parse_inverts_format() {
    let x: u128 = 0x0123456789abcdef0011223344556677;
    let text = format_id(x);
    assert_eq!(parse_id(&text, 0), Some(x));
}

#[test]
fn parse_at_offset() {
    let mut v = b"xy".to_vec();
    v.extend_from_slice(&format_id(42));
    assert_eq!(parse_id(&v, 2), Some(42));
}

#[test]
fn parse_rejects_uppercase_missing_hyphens_and_bad_digits() {
    assert_eq!(
        parse_id(&b"A1A2A3A4-B1B2-C1C2-D1D2-D3D4D5D6D7D8".to_vec(), 0),
        None
    );
    assert_eq!(
        parse_id(&b"a1a2a3a4_b1b2-c1c2-d1d2-d3d4d5d6d7d8".to_vec(), 0),
        None
    );
    assert_eq!(
        parse_id(&b"a1a2a3a4-b1bg-c1c2-d1d2-d3d4d5d6d7d8".to_vec(), 0),
        None
    );
}
