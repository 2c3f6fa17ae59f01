use stun_proto::{GenericAttrReader, RealmAttributeReader, RfcSpec};

#[test]
fn realm_reads_declared_length_from_offset_two() {
    // the length field (bytes 2 and 3) says 4; the realm is bytes 2..6
    let bytes = [0x00, 0x14, 0x00, 0x04, b'a', b'b', b'c'];
    let r = RealmAttributeReader::new(&bytes);
    assert_eq!(4, r.get_value_length());
    assert_eq!("\u{0}\u{4}ab", r.get_realm().unwrap());
}

#[test]
fn realm_rejects_bad_utf8() {
    let bytes = [0x00, 0x14, 0x00, 0x03, 0xFF, 0x00];
    let r = RealmAttributeReader::new(&bytes);
    assert!(r.get_realm().is_err());
}

#[test]
fn realm_reader_facts() {
    let bytes = [0x00, 0x14, 0x00, 0x00];
    let r = RealmAttributeReader::new(&bytes);
    assert_eq!(RfcSpec::Rfc3489, r.get_rfc_spec());
    assert!(!r.is_deprecated());
    assert_eq!(&bytes[..], r.get_bytes());
    assert_eq!("", r.get_realm().unwrap());
}
