use qkd_keys::error::Error;
use qkd_keys::oblivious::{oblivious_content, transform_byte, transform_bytes};

#[test]
fn transform_byte_exact_values() {
    // groups of 0b10_01_11_00 under basis bits 1,0,1,0 (low group first)
    assert_eq!(transform_byte(0b1001_1100, 0b0000_0101), 118);
    // basis clear: each group reveals its high bit in the low position
    assert_eq!(transform_byte(0xFF, 0x00), 0x55);
    assert_eq!(transform_byte(0xAA, 0x00), 0x55);
    assert_eq!(transform_byte(0x55, 0x00), 0x00);
    // basis set: each group reveals its low bit under a set high bit
    assert_eq!(transform_byte(0x00, 0x0F), 0xAA);
    assert_eq!(transform_byte(0x55, 0x0F), 0xFF);
    // only the low four basis bits are read
    assert_eq!(transform_byte(0x00, 0xF0), 0x00);
}

#[test]
fn transform_bytes_reuses_stream_cyclically() {
    assert_eq!(transform_bytes(&[0xFF, 0x00, 0x55], &[0x00]), vec![0x55, 0x00, 0x00]);
    assert_eq!(transform_bytes(&[0x00, 0x00, 0x00], &[0x0F, 0x00]), vec![0xAA, 0x00, 0xAA]);
    assert_eq!(transform_bytes(&[], &[]), Vec::<u8>::new());
}

#[test]
fn oblivious_content_is_deterministic() {
    let stored = "q83vEjRWeJCrze8SNFZ4gA==";
    let a = oblivious_content(stored, "A", "B", 7).unwrap();
    let b = oblivious_content(stored, "A", "B", 7).unwrap();
    assert_eq!(a, b);
    assert_eq!(a.len(), stored.len());
    assert_ne!(a, stored);
}

#[test]
fn oblivious_content_depends_on_request() {
    let stored = "AAAAAAAAAAAAAAAAAAAAAAAAAAAAAAAAAAAAAAAAAAA=";
    let b = oblivious_content(stored, "A", "B", 7).unwrap();
    let c = oblivious_content(stored, "A", "C", 7).unwrap();
    let other_id = oblivious_content(stored, "A", "B", 8).unwrap();
    assert_ne!(b, c);
    assert_ne!(b, other_id);
}

#[test]
fn oblivious_content_rejects_bad_stored_text() {
    assert_eq!(oblivious_content("not base64!", "A", "B", 1), Err(Error::InternalError));
    assert_eq!(oblivious_content("", "A", "B", 1), Ok(String::new()));
}
