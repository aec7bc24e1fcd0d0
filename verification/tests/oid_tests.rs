use user_service::oid::{parse_object_id, ObjectId};
use user_service::user::UserError;

#[test]
fn test_parse_then_encode_round_trips() {
    let hex = "aabbccddeeff001122334455";
    let oid = parse_object_id(hex).expect("a well-formed identifier parses");
    assert_eq!(oid.to_hex(), hex);
}

#[test]
fn test_parse_accepts_uppercase_and_encodes_lowercase() {
    let oid = parse_object_id("AABBCCDDEEFF001122334455").expect("uppercase digits parse");
    assert_eq!(oid.to_hex(), "aabbccddeeff001122334455");
}

#[test]
fn test_parse_rejects_empty_string() {
    assert_eq!(parse_object_id(""), Err(UserError::InvalidInput));
}

#[test]
fn test_parse_rejects_wrong_length() {
    assert_eq!(parse_object_id("abc"), Err(UserError::InvalidInput));
    assert_eq!(
        parse_object_id("aabbccddeeff00112233445"),
        Err(UserError::InvalidInput)
    );
    assert_eq!(
        parse_object_id("aabbccddeeff0011223344556"),
        Err(UserError::InvalidInput)
    );
}

#[test]
fn test_parse_rejects_non_hex_digits() {
    assert_eq!(
        parse_object_id("gggggggggggggggggggggggg"),
        Err(UserError::InvalidInput)
    );
    assert_eq!(
        parse_object_id("aabbccddeeff0011223344.5"),
        Err(UserError::InvalidInput)
    );
}

#[test]
fn test_from_bytes_round_trips_through_hex() {
    let bytes: Vec<u8> = vec![0, 1, 2, 3, 4, 5, 250, 251, 252, 253, 254, 255];
    let oid = ObjectId::from_bytes(bytes.clone());
    assert_eq!(oid.to_hex(), "000102030405fafbfcfdfeff");
    let back = parse_object_id(&oid.to_hex()).expect("the encoding parses");
    assert_eq!(back.to_bytes(), bytes);
    assert!(back.same_id(&oid));
}

#[test]
fn test_same_id_distinguishes_identifiers() {
    let a = parse_object_id("aabbccddeeff001122334455").unwrap();
    let b = parse_object_id("aabbccddeeff001122334456").unwrap();
    assert!(!a.same_id(&b));
}
