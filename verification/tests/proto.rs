use stun_proto::{
    AttributeIterator, AttributeReader, Class, ComprehensionCategory, GenericAttribute, Method,
    MsgReader, RawAttributeIterator, ReaderErr, Rfc3489Attribute, Rfc3489Iterator, SocketAddr,
    SocketAddrReader, StringReader, XorSocketAddrReader,
};

#[test]
fn test_parse_message_header() {
    let msg = [
        0x00, 0x01,             // method: Binding , class: Request
        0x00, 0x14,             // total length: 20
        0x21, 0x12, 0xA4, 0x42, // magic cookie (RFC spec constant)
        0x00, 0x00, 0x00, 0x00,
        0x00, 0x00, 0x00, 0x00,
        0x00, 0x00, 0x00, 0x00, // transaction id (12 bytes total)
    ];

    let r = MsgReader::new(&msg);

    assert_eq!(Method::Binding, r.get_method().unwrap());
    assert_eq!(Class::Request, r.get_class().unwrap());
    assert_eq!(0x2112A442, u32::from_be_bytes(*r.get_magic_cookie_raw().unwrap()));
    assert_eq!(12, r.get_transaction_id_raw().unwrap().len());
    assert_eq!(0, r.get_attributes_raw().unwrap().len());
}

#[test]
fn test_iter_over_attrs() {
    let attr = [
        0x00, 0x01,             // type
        0x00, 0x04,             // value length
        0x01, 0x01, 0x01, 0x01, // value
    ];

    assert_eq!(1, AttributeIterator::new(&attr).count());

    let mut iter = AttributeIterator::new(&attr);
    while let Some(attr) = iter.next() {
        match attr {
            Ok((typ, val)) => {
                assert_eq!(1u16, typ);
                assert_eq!([0x01, 0x01, 0x01, 0x01], *val);
            }
            Err(_) => assert!(false, "Test attr should be valid"),
        }
    }
}

#[test]
fn test_iter_over_attrs_invalid_attr_missing_byte() {
    let attr = [
        0x00, 0x01,             // type
        0x00, 0x05,             // value length (4+1 because we're simulating a missing byte)
        0x01, 0x01, 0x01, 0x01, // value
    ];

    assert_eq!(1, AttributeIterator::new(&attr).count());

    let mut iter = AttributeIterator::new(&attr);
    while let Some(attr) = iter.next() {
        match attr {
            Ok(_) => assert!(false, "Test attr should be invalid"),
            Err(_) => assert!(true, "Test attr should be valid"),
        }
    }
}

#[test]
fn test_iter_over_attrs_invalid_attr_extra_byte() {
    let attr = [
        0x00, 0xFF,             // type
        0x00, 0x03,             // value length (4-1 because we're simulating an extra byte)
        0x01, 0x01, 0x01, 0x01, // value
    ];

    assert_eq!(2, AttributeIterator::new(&attr).count());

    let mut iter = AttributeIterator::new(&attr);

    if let Some(Ok((typ, val))) = iter.next() {
        assert_eq!(0xFF, typ);
        assert_eq!([0x01, 0x01, 0x01], *val);
    } else {
        assert!(false, "First attr should be valid");
    }

    if let Some(Err(_)) = iter.next() {
        assert!(true);
    } else {
        assert!(false, "Second attr should be an error");
    }
}

#[test]
fn test_parse_mapped_address_attr() {
    let attr = [
        0x00, 0x01,             // type (MappedAddress)
        0x00, 0x08,             // value length
        0x00, 0x01,             // address family
        0x0A, 0x0B,             // port
        0x0C, 0x0D, 0x0E, 0x0F, // ipv4 address
    ];

    assert_eq!(1, Rfc3489Iterator::new(&attr, 0).count());

    let r = Rfc3489Iterator::new(&attr, 0).next();

    let r = if let Some(Ok(Rfc3489Attribute::MappedAddress(r))) = r { r } else {
        assert!(false, "Iterator should return a valid MappingAddress attribute");
        return;
    };

    let addr = if let Ok(addr) = r.get_address() { addr } else {
        assert!(false, "Test address should be a valid address");
        return;
    };

    if let SocketAddr::V4 { addr, port } = addr {
        assert_eq!(0x0A0B, port);
        assert_eq!(0x0C0D0E0F, addr);
    } else {
        assert!(false, "Test address should be a V4 address");
    }
}

// ---- message header ----

#[test]
fn method_of_binding_request() {
    let msg = [0x0, 0x1];
    let r = MsgReader::new(&msg);
    assert_eq!(Method::Binding, r.get_method().unwrap());
}

#[test]
fn method_of_empty_message() {
    let msg: [u8; 0] = [];
    let r = MsgReader::new(&msg);
    assert_eq!(ReaderErr::NotEnoughBytes, r.get_method().unwrap_err());
    assert_eq!(ReaderErr::NotEnoughBytes, r.get_class().unwrap_err());
    assert_eq!(ReaderErr::NotEnoughBytes, r.get_message_length().unwrap_err());
}

#[test]
fn method_unknown_value() {
    let msg = [0x0, 0xF];
    let r = MsgReader::new(&msg);
    assert_eq!(ReaderErr::UnexpectedValue, r.get_method().unwrap_err());
}

#[test]
fn class_of_each_class_bit_pattern() {
    let cases = [
        ([0x00u8, 0x01u8], Class::Request),
        ([0x00, 0x11], Class::Indirection),
        ([0x01, 0x01], Class::SuccessResponse),
        ([0x01, 0x11], Class::ErrorResponse),
    ];
    for (msg, class) in cases.iter() {
        let r = MsgReader::new(msg);
        assert_eq!(*class, r.get_class().unwrap());
        // the class bits do not change the method
        assert_eq!(Method::Binding, r.get_method().unwrap());
    }
}

#[test]
fn method_ignores_top_bits_class_ignores_method_bits() {
    // top two bits set: still Binding
    let msg = [0xC0, 0x01];
    let r = MsgReader::new(&msg);
    assert_eq!(Method::Binding, r.get_method().unwrap());
    // method bits all set, class bits clear: still a request
    let msg = [0x3E, 0xEF];
    let r = MsgReader::new(&msg);
    assert_eq!(Class::Request, r.get_class().unwrap());
    assert_eq!(ReaderErr::UnexpectedValue, r.get_method().unwrap_err());
}

#[test]
fn message_length_is_big_endian() {
    let msg = [0x0, 0x1, 0x0, 0x7];
    let r = MsgReader::new(&msg);
    assert_eq!(7, r.get_message_length().unwrap());
    let msg = [0x0, 0x1, 0x12, 0x34];
    let r = MsgReader::new(&msg);
    assert_eq!(0x1234, r.get_message_length().unwrap());
}

#[test]
fn header_fields_give_exact_bytes() {
    let msg: Vec<u8> = (0u8..24).collect();
    let r = MsgReader::new(&msg);
    assert_eq!([0, 1], *r.get_message_type_raw().unwrap());
    assert_eq!([2, 3], *r.get_message_length_raw().unwrap());
    assert_eq!([4, 5, 6, 7], *r.get_magic_cookie_raw().unwrap());
    assert_eq!([8, 9, 10, 11, 12, 13, 14, 15, 16, 17, 18, 19], *r.get_transaction_id_raw().unwrap());
    assert_eq!([20, 21, 22, 23], *r.get_attributes_raw().unwrap());
    // the five fields put back together are the message
    let mut whole = Vec::new();
    whole.extend_from_slice(r.get_message_type_raw().unwrap());
    whole.extend_from_slice(r.get_message_length_raw().unwrap());
    whole.extend_from_slice(r.get_magic_cookie_raw().unwrap());
    whole.extend_from_slice(r.get_transaction_id_raw().unwrap());
    whole.extend_from_slice(r.get_attributes_raw().unwrap());
    assert_eq!(msg, whole);
}

#[test]
fn header_fields_of_short_message() {
    let msg = [0u8; 19];
    let r = MsgReader::new(&msg);
    assert!(r.get_message_type_raw().is_ok());
    assert!(r.get_message_length_raw().is_ok());
    assert!(r.get_magic_cookie_raw().is_ok());
    assert_eq!(ReaderErr::NotEnoughBytes, r.get_transaction_id_raw().unwrap_err());
    assert_eq!(ReaderErr::NotEnoughBytes, r.get_attributes_raw().unwrap_err());
    let msg = [0u8; 3];
    let r = MsgReader::new(&msg);
    assert_eq!(ReaderErr::NotEnoughBytes, r.get_message_length_raw().unwrap_err());
    assert_eq!(ReaderErr::NotEnoughBytes, r.get_magic_cookie_raw().unwrap_err());
}

// ---- attribute iteration ----

fn encode(attrs: &[(u16, &[u8])]) -> Vec<u8> {
    let mut out = Vec::new();
    for (t, v) in attrs {
        out.extend_from_slice(&t.to_be_bytes());
        out.extend_from_slice(&(v.len() as u16).to_be_bytes());
        out.extend_from_slice(v);
    }
    out
}

#[test]
fn encoded_attributes_read_back_in_order() {
    let big = vec![7u8; 300];
    let attrs: [(u16, &[u8]); 3] = [(0x0001, &[1, 2, 3]), (0x8022, &[]), (0x0014, &big)];
    let bytes = encode(&attrs);
    let mut iter = AttributeIterator::new(&bytes);
    for (t, v) in attrs.iter() {
        let (typ, val) = iter.next().unwrap().unwrap();
        assert_eq!(*t, typ);
        assert_eq!(*v, val);
    }
    assert!(iter.next().is_none());
    assert_eq!(3, AttributeIterator::new(&bytes).count());
}

#[test]
fn empty_body_has_no_attributes() {
    let bytes: [u8; 0] = [];
    assert!(AttributeIterator::new(&bytes).next().is_none());
    assert_eq!(0, RawAttributeIterator::new(&bytes).count());
}

#[test]
fn raw_iterator_hands_out_fields() {
    let bytes = [0x80, 0x22, 0x00, 0x02, b'h', b'i', 0x00, 0x01];
    let mut iter = RawAttributeIterator::new(&bytes);
    let (t, l, v) = iter.next().unwrap().unwrap();
    assert_eq!([0x80, 0x22], *t);
    assert_eq!([0x00, 0x02], *l);
    assert_eq!(b"hi", v);
    // two bytes left: a type with no length
    assert_eq!(ReaderErr::NotEnoughBytes, iter.next().unwrap().unwrap_err());
    assert!(iter.next().is_none());
}

#[test]
fn error_ends_iteration() {
    // one odd byte after a valid attribute
    let bytes = [0x00, 0x01, 0x00, 0x00, 0x05];
    let mut iter = AttributeIterator::new(&bytes);
    assert!(iter.next().unwrap().is_ok());
    assert_eq!(ReaderErr::NotEnoughBytes, iter.next().unwrap().unwrap_err());
    assert!(iter.next().is_none());
    assert!(iter.next().is_none());
}

#[test]
fn generic_attribute_fields() {
    let bytes = [0x80, 0x22, 0x00, 0x03, b'a', b'b', b'c', 0xFF];
    let a = AttributeReader::new(&bytes);
    assert_eq!(0x8022, a.get_type().unwrap());
    assert_eq!(ComprehensionCategory::Optional, a.get_comprehension_category().unwrap());
    assert_eq!(3, a.get_value_length().unwrap());
    assert_eq!([0x80, 0x22], *a.get_type_raw().unwrap());
    assert_eq!([0x00, 0x03], *a.get_value_length_raw().unwrap());
    assert_eq!(b"abc", a.get_value_raw().unwrap());

    let bytes = [0x00, 0x01, 0x00, 0x09, 0x01];
    let a = AttributeReader::new(&bytes);
    assert_eq!(ComprehensionCategory::Required, a.get_comprehension_category().unwrap());
    assert_eq!(ReaderErr::NotEnoughBytes, a.get_value_raw().unwrap_err());

    let bytes = [0x00];
    let a = AttributeReader::new(&bytes);
    assert_eq!(ReaderErr::NotEnoughBytes, a.get_type().unwrap_err());
    assert_eq!(ReaderErr::NotEnoughBytes, a.get_comprehension_category().unwrap_err());
    assert_eq!(ReaderErr::NotEnoughBytes, a.get_value_length().unwrap_err());
}

// ---- RFC 3489 attributes ----

#[test]
fn unknown_attribute_type_is_unexpected_and_iteration_goes_on() {
    let bytes = encode(&[(0x0009, &[0, 0, 4, 4]), (0x0006, b"user")]);
    let mut iter = Rfc3489Iterator::new(&bytes, 0);
    assert!(matches!(iter.next(), Some(Err(ReaderErr::UnexpectedValue))));
    match iter.next() {
        Some(Ok(Rfc3489Attribute::Username(r))) => assert_eq!("user", r.get_string().unwrap()),
        _ => panic!("expected a USERNAME attribute"),
    }
    assert!(iter.next().is_none());
}

#[test]
fn xor_mapped_address_gets_transaction_id() {
    // RFC 5769, section 2.3: XOR-MAPPED-ADDRESS of [2001:db8:1234:5678:11:2233:4455:6677]:32853
    let tid: u128 = 0xb7e7a701bc34d686fa87dfae;
    let value = [
        0x00, 0x02, 0xa1, 0x47, 0x01, 0x13, 0xa9, 0xfa, 0xa5, 0xd3, 0xf1, 0x79, 0xbc, 0x25, 0xf4,
        0xb5, 0xbe, 0xd2, 0xb9, 0xd9,
    ];
    let bytes = encode(&[(0x0020, &value)]);
    match Rfc3489Iterator::new(&bytes, tid).next() {
        Some(Ok(Rfc3489Attribute::XorMappedAddress(r))) => match r.get_address().unwrap() {
            SocketAddr::V6 { addr, port } => {
                assert_eq!(32853, port);
                assert_eq!(0x20010db8123456780011223344556677, addr);
            }
            _ => panic!("expected an IPv6 address"),
        },
        _ => panic!("expected an XOR-MAPPED-ADDRESS attribute"),
    }
}

#[test]
fn xor_address_v4_rfc5769_vector() {
    // RFC 5769, section 2.2: 192.0.2.1:32853
    let value = [0x00, 0x01, 0xa1, 0x47, 0xe1, 0x12, 0xa6, 0x43];
    let r = XorSocketAddrReader::new(&value, 0);
    assert_eq!(SocketAddr::V4 { addr: 0xC0000201, port: 32853 }, r.get_address().unwrap());
    // the plain reader sees the XOR-ed fields
    let plain = SocketAddrReader::new(&value).get_address().unwrap();
    assert_eq!(SocketAddr::V4 { addr: 0xE112A643, port: 0xA147 }, plain);
    assert_eq!(0xC0000201 ^ 0x2112A442, 0xE112A643u32);
}

#[test]
fn socket_address_v6_and_errors() {
    let mut value = vec![0x00, 0x02, 0x12, 0x34];
    value.extend_from_slice(&0x20010db8000000000000000000000001u128.to_be_bytes());
    let r = SocketAddrReader::new(&value);
    assert_eq!(SocketAddr::V6 { addr: 0x20010db8000000000000000000000001, port: 0x1234 }, r.get_address().unwrap());
    assert_eq!(0x1234, r.get_address().unwrap().port());

    let short_v6 = [0x00, 0x02, 0x12, 0x34, 0x20];
    assert_eq!(ReaderErr::NotEnoughBytes, SocketAddrReader::new(&short_v6).get_address().unwrap_err());
    let short_v4 = [0x00, 0x01, 0x12, 0x34, 0x20];
    assert_eq!(ReaderErr::NotEnoughBytes, SocketAddrReader::new(&short_v4).get_address().unwrap_err());
    let bad_family = [0x00, 0x03, 0x12, 0x34, 1, 2, 3, 4];
    assert_eq!(ReaderErr::UnexpectedValue, SocketAddrReader::new(&bad_family).get_address().unwrap_err());
    let tiny = [0x00];
    assert_eq!(ReaderErr::NotEnoughBytes, SocketAddrReader::new(&tiny).get_address().unwrap_err());
}

#[test]
fn xor_twice_gives_back_address() {
    // XOR-encode 10.0.0.1:5000 by hand, then read it with both readers
    let addr: u32 = 0x0A000001;
    let port: u16 = 5000;
    let mut value = vec![0x00, 0x01];
    value.extend_from_slice(&(port ^ 0x2112).to_be_bytes());
    value.extend_from_slice(&(addr ^ 0x2112A442).to_be_bytes());
    assert_eq!(SocketAddr::V4 { addr, port }, XorSocketAddrReader::new(&value, 99).get_address().unwrap());
}

#[test]
fn string_reader_decodes_utf8() {
    let bytes = "réalm".as_bytes();
    let r = StringReader::new(bytes);
    assert_eq!("réalm", r.get_string().unwrap());
    assert_eq!(bytes, r.get_bytes());
    let bad = [0x61, 0xC3];
    assert!(StringReader::new(&bad).get_string().is_err());
    let overlong = [0xC0, 0x80];
    assert!(StringReader::new(&overlong).get_string().is_err());
}
