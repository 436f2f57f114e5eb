use payment_codec::BitError;
use payment_codec::SimplePayment;

#[test]
fn test_roundtrip_success() {
    let payment = SimplePayment {
        from: "alice".to_string(),
        to: "bob".to_string(),
        amount: 12345,
    };
    let encoded = payment.encode().unwrap();
    let decoded = SimplePayment::decode(&encoded).unwrap();
    assert_eq!(payment, decoded);
}

#[test]
fn test_decode_insufficient_data() {
    // Valid encoding of a payment
    let payment = SimplePayment {
        from: "a".to_string(),
        to: "b".to_string(),
        amount: 1,
    };
    let encoded = payment.encode().unwrap();

    // Truncate the buffer by 1 byte (removes part of the 'amount')
    let truncated_data = &encoded[..encoded.len() - 1];

    let err = SimplePayment::decode(truncated_data).unwrap_err();
    assert_eq!(err, BitError::InsufficientData);
}

#[test]
fn test_decode_trailing_data() {
    let payment = SimplePayment {
        from: "a".to_string(),
        to: "b".to_string(),
        amount: 1,
    };
    let mut encoded = payment.encode().unwrap();

    // Add extra, unexpected bytes
    encoded.push(0xDE);
    encoded.push(0xAD);
    encoded.push(0xBE);
    encoded.push(0xEF);

    let err = SimplePayment::decode(&encoded).unwrap_err();
    assert_eq!(err, BitError::TrailingData);
}

#[test]
fn test_decode_string_too_long() {
    // Manually craft a malicious packet
    let mut malicious_data = Vec::new();
    // 1. 'from' string: length = 2000 (which is > MAX_LEN)
    malicious_data.extend_from_slice(&2000u32.to_be_bytes());
    malicious_data.extend_from_slice(&vec![0u8; 2000]);

    // 2. 'to' string: length = 1
    malicious_data.extend_from_slice(&1u32.to_be_bytes());
    malicious_data.extend_from_slice(b"a");

    // 3. 'amount': 1
    malicious_data.extend_from_slice(&1u64.to_be_bytes());

    let err = SimplePayment::decode(&malicious_data).unwrap_err();
    assert_eq!(err, BitError::StringTooLong);
}

#[test]
fn test_exact_byte_layout() {
    let payment = SimplePayment {
        from: "Bob".to_string(),
        to: "Alice".to_string(),
        amount: 1000,
    };
    let encoded = payment.encode().unwrap();
    let expected: Vec<u8> = vec![
        0x00, 0x00, 0x00, 0x03, b'B', b'o', b'b', 0x00, 0x00, 0x00, 0x05, b'A', b'l', b'i', b'c',
        b'e', 0x00, 0x00, 0x00, 0x00, 0x00, 0x00, 0x03, 0xE8,
    ];
    assert_eq!(encoded.len(), 24);
    assert_eq!(encoded, expected);
}

#[test]
fn test_empty_strings() {
    let payment = SimplePayment {
        from: String::new(),
        to: String::new(),
        amount: 0,
    };
    let encoded = payment.encode().unwrap();
    assert_eq!(encoded, vec![0u8; 16]);
    let decoded = SimplePayment::decode(&encoded).unwrap();
    assert_eq!(payment, decoded);
}

#[test]
fn test_decode_invalid_utf8() {
    // 'from' declares one byte, and that byte is 0xFF: not valid UTF-8.
    let mut data = Vec::new();
    data.extend_from_slice(&1u32.to_be_bytes());
    data.push(0xFF);
    // empty 'to' field and a zero amount, so everything else is well-formed
    data.extend_from_slice(&0u32.to_be_bytes());
    data.extend_from_slice(&0u64.to_be_bytes());

    let err = SimplePayment::decode(&data).unwrap_err();
    assert!(matches!(err, BitError::Utf8(_)));
}

#[test]
fn test_roundtrip_multibyte_utf8() {
    let payment = SimplePayment {
        from: "héllo ☃".to_string(),
        to: "π".to_string(),
        amount: u64::MAX,
    };
    let encoded = payment.encode().unwrap();
    let decoded = SimplePayment::decode(&encoded).unwrap();
    assert_eq!(payment, decoded);
}

#[test]
fn test_encode_does_not_enforce_max_len() {
    // Encoding a field beyond MAX_LEN succeeds; only decode rejects it.
    let payment = SimplePayment {
        from: "x".repeat(2000),
        to: "y".to_string(),
        amount: 7,
    };
    let encoded = payment.encode().unwrap();
    assert_eq!(encoded.len(), 4 + 2000 + 4 + 1 + 8);
    let err = SimplePayment::decode(&encoded).unwrap_err();
    assert_eq!(err, BitError::StringTooLong);
}

#[test]
fn test_max_len_boundary() {
    // A field of exactly MAX_LEN bytes round-trips.
    let payment = SimplePayment {
        from: "z".repeat(1024),
        to: String::new(),
        amount: 3,
    };
    let encoded = payment.encode().unwrap();
    let decoded = SimplePayment::decode(&encoded).unwrap();
    assert_eq!(payment, decoded);

    // One byte more is rejected before its body is read.
    let over = SimplePayment {
        from: "z".repeat(1025),
        to: String::new(),
        amount: 3,
    };
    let encoded = over.encode().unwrap();
    let err = SimplePayment::decode(&encoded).unwrap_err();
    assert_eq!(err, BitError::StringTooLong);
}

#[test]
fn test_decode_short_length_prefix() {
    // Fewer than four bytes cannot even hold the first length prefix.
    let err = SimplePayment::decode(&[0u8, 0u8]).unwrap_err();
    assert_eq!(err, BitError::InsufficientData);

    let err = SimplePayment::decode(&[]).unwrap_err();
    assert_eq!(err, BitError::InsufficientData);
}

#[test]
fn test_decode_truncated_field_body() {
    // 'from' declares five bytes but only three follow.
    let mut data = Vec::new();
    data.extend_from_slice(&5u32.to_be_bytes());
    data.extend_from_slice(b"abc");
    let err = SimplePayment::decode(&data).unwrap_err();
    assert_eq!(err, BitError::InsufficientData);
}

#[test]
fn test_default_payment() {
    let payment = SimplePayment::default();
    assert_eq!(
        payment,
        SimplePayment {
            from: String::new(),
            to: String::new(),
            amount: 0,
        }
    );
}
