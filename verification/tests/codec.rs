use olm_wire::messages::{PreKeyMessage, VERSION};
use olm_wire::protobuf::PbError;
use olm_wire::{encode_varint, Curve25519PublicKey, DecodeError, Mac, OlmMessage};

fn test_key(fill: u8) -> [u8; 32] {
    let mut key = [0u8; 32];
    for i in 0..32 {
        key[i] = fill.wrapping_add(i as u8);
    }
    key
}

#[test]
fn encode() {
    let message = b"\x03\n\nratchetkey\x10\x01\"\nciphertext";
    let message_mac = b"\x03\n\nratchetkey\x10\x01\"\nciphertextMACHEREE";

    let ratchet_key = b"ratchetkey";
    let ciphertext = b"ciphertext";

    let mut encoded = OlmMessage::from_parts_untyped(ratchet_key, 1, ciphertext.to_vec());

    assert_eq!(encoded.as_payload_bytes(), message.as_ref());
    encoded.append_mac_bytes(b"MACHEREE");
    assert_eq!(encoded.as_payload_bytes(), message.as_ref());
    assert_eq!(encoded.as_bytes(), message_mac.as_ref());
}

#[test]
fn round_trip_normal_message() {
    let key_bytes = test_key(1);
    let key = Curve25519PublicKey::from(key_bytes);
    let ciphertext = b"an opaque ciphertext".to_vec();

    let mut message = OlmMessage::from_parts(&key, 5, ciphertext.clone());
    let payload_before = message.as_payload_bytes().to_vec();

    let mut mac_bytes = [0u8; 32];
    for i in 0..32 {
        mac_bytes[i] = 0xa0 + i as u8;
    }
    message.append_mac(Mac(mac_bytes));
    assert_eq!(message.as_payload_bytes(), payload_before.as_slice());

    let decoded = message.decode().unwrap();
    assert_eq!(decoded.ratchet_key.as_bytes(), &key_bytes);
    assert_eq!(decoded.chain_index, 5);
    assert_eq!(decoded.ciphertext, ciphertext);
    assert_eq!(decoded.mac, [0xa0, 0xa1, 0xa2, 0xa3, 0xa4, 0xa5, 0xa6, 0xa7]);
}

#[test]
fn zero_chain_index_is_encoded() {
    let key_bytes = test_key(7);
    let key = Curve25519PublicKey::from(key_bytes);
    let message = OlmMessage::from_parts(&key, 0, b"ct".to_vec());

    // version, tag, length, 32 key bytes, then the index field: tag 0x10
    // and the single varint byte 0, which must not be omitted.
    let bytes = message.as_bytes();
    assert_eq!(bytes[35], 0x10);
    assert_eq!(bytes[36], 0x00);

    let decoded = message.decode().unwrap();
    assert_eq!(decoded.chain_index, 0);
}

#[test]
fn missing_version_is_rejected() {
    let message = OlmMessage::from(Vec::new());
    match message.decode() {
        Err(DecodeError::MissingVersion) => {},
        other => panic!("expected MissingVersion, got {:?}", other),
    }
}

#[test]
fn wrong_version_is_rejected() {
    let mut bytes = vec![4u8];
    bytes.extend_from_slice(&[0u8; 16]);
    let message = OlmMessage::from(bytes);
    match message.decode() {
        Err(DecodeError::InvalidVersion(expected, got)) => {
            assert_eq!(expected, VERSION);
            assert_eq!(got, 4);
        },
        other => panic!("expected InvalidVersion, got {:?}", other),
    }
}

#[test]
fn short_message_is_rejected() {
    let message = OlmMessage::from(vec![3u8, 1, 2]);
    match message.decode() {
        Err(DecodeError::MessageToShort(len)) => assert_eq!(len, 3),
        other => panic!("expected MessageToShort, got {:?}", other),
    }
}

#[test]
fn short_key_is_rejected() {
    let mut message = OlmMessage::from_parts_untyped(b"short", 1, b"ciphertext".to_vec());
    message.append_mac_bytes(b"AAAAAAAA");
    match message.decode() {
        Err(DecodeError::InvalidKeyLength(expected, got)) => {
            assert_eq!(expected, 32);
            assert_eq!(got, 5);
        },
        other => panic!("expected InvalidKeyLength, got {:?}", other),
    }
}

#[test]
fn truncated_body_is_rejected() {
    // Version byte, then a body of one byte: a tag for field 1 (bytes) whose
    // length prefix is missing.  Padding keeps the buffer at the length floor.
    let bytes = vec![3u8, 0x0a, 0, 0, 0, 0, 0, 0, 0, 0];
    let message = OlmMessage::from(bytes);
    match message.decode() {
        Err(DecodeError::ProtoBufError(_)) => {},
        other => panic!("expected ProtoBufError, got {:?}", other),
    }
}

#[test]
fn round_trip_prekey_message() {
    let one_time = Curve25519PublicKey::from(test_key(11));
    let base = Curve25519PublicKey::from(test_key(23));
    let identity = Curve25519PublicKey::from(test_key(42));
    let inner = OlmMessage::from_parts(&one_time, 9, b"inner".to_vec());
    let inner_bytes = inner.into_vec();

    let message = PreKeyMessage::from_parts(&one_time, &base, &identity, inner_bytes.clone());
    let (otk, base_out, identity_out, embedded) = message.decode().unwrap();
    assert_eq!(otk.as_bytes(), one_time.as_bytes());
    assert_eq!(base_out.as_bytes(), base.as_bytes());
    assert_eq!(identity_out.as_bytes(), identity.as_bytes());
    assert_eq!(embedded, inner_bytes);
}

#[test]
fn prekey_short_key_is_rejected() {
    let good = test_key(3);
    let message = PreKeyMessage::from_parts_untyped(b"short", &good, &good, b"msg");
    match message.decode() {
        Err(DecodeError::InvalidKeyLength(expected, got)) => {
            assert_eq!(expected, 32);
            assert_eq!(got, 5);
        },
        other => panic!("expected InvalidKeyLength, got {:?}", other),
    }
}

#[test]
fn prekey_version_is_checked() {
    match PreKeyMessage::from(Vec::new()).decode() {
        Err(DecodeError::MissingVersion) => {},
        other => panic!("expected MissingVersion, got {:?}", other),
    }
    match PreKeyMessage::from(vec![9u8, 1, 2, 3]).decode() {
        Err(DecodeError::InvalidVersion(expected, got)) => {
            assert_eq!(expected, VERSION);
            assert_eq!(got, 9);
        },
        other => panic!("expected InvalidVersion, got {:?}", other),
    }
}

#[test]
fn signature_error_converts() {
    let err = DecodeError::from(ed25519_dalek::SignatureError::new());
    match err {
        DecodeError::Signature(_) => {},
        other => panic!("expected Signature, got {:?}", other),
    }
}

#[test]
fn mac_truncates_to_first_eight_bytes() {
    let mut mac_bytes = [0u8; 32];
    for i in 0..32 {
        mac_bytes[i] = i as u8;
    }
    let mac = Mac(mac_bytes);
    assert_eq!(mac.truncate(), [0, 1, 2, 3, 4, 5, 6, 7]);
}

#[test]
fn public_key_round_trips_through_bytes() {
    let bytes = test_key(99);
    let key = Curve25519PublicKey::from(bytes);
    assert_eq!(key.as_bytes(), &bytes);
    let again = Curve25519PublicKey::from_slice(key.as_bytes());
    assert_eq!(again.as_bytes(), &bytes);
}

#[test]
fn into_vec_returns_the_whole_buffer() {
    let mut message = OlmMessage::from_parts_untyped(b"ratchetkey", 1, b"ciphertext".to_vec());
    message.append_mac_bytes(b"MACHEREE");
    let bytes = message.into_vec();
    assert_eq!(bytes, b"\x03\n\nratchetkey\x10\x01\"\nciphertextMACHEREE".to_vec());
}

#[test]
fn missing_key_gives_invalid_key_length() {
    // A structurally valid body holding only an index field: the absent key
    // field decodes as empty, which fails the key-length check.
    let mut bytes = vec![3u8, 0x10, 0x05];
    bytes.extend_from_slice(b"AAAAAAAA");
    match OlmMessage::from(bytes).decode() {
        Err(DecodeError::InvalidKeyLength(expected, got)) => {
            assert_eq!(expected, 32);
            assert_eq!(got, 0);
        },
        other => panic!("expected InvalidKeyLength, got {:?}", other),
    }
}

#[test]
fn unknown_fields_are_skipped_and_last_key_wins() {
    let first_key = test_key(1);
    let last_key = test_key(2);
    let mut bytes = vec![3u8];
    // key field, first occurrence
    bytes.push(0x0a);
    bytes.push(32);
    bytes.extend_from_slice(&first_key);
    // unknown varint field 3
    bytes.push(0x18);
    bytes.push(0x07);
    // unknown 32-bit field 6 and 64-bit field 7
    bytes.push(0x35);
    bytes.extend_from_slice(&[0, 0, 0, 0]);
    bytes.push(0x39);
    bytes.extend_from_slice(&[0, 0, 0, 0, 0, 0, 0, 0]);
    // index field
    bytes.push(0x10);
    bytes.push(0x05);
    // ciphertext field
    bytes.push(0x22);
    bytes.push(2);
    bytes.extend_from_slice(b"hi");
    // key field again: the last occurrence must win
    bytes.push(0x0a);
    bytes.push(32);
    bytes.extend_from_slice(&last_key);
    bytes.extend_from_slice(b"AAAAAAAA");

    let decoded = OlmMessage::from(bytes).decode().unwrap();
    assert_eq!(decoded.ratchet_key.as_bytes(), &last_key);
    assert_eq!(decoded.chain_index, 5);
    assert_eq!(decoded.ciphertext, b"hi".to_vec());
}

#[test]
fn wrong_wire_type_is_rejected() {
    // The index field carries wire type 2 instead of 0.
    let mut bytes = vec![3u8, 0x12, 0x00];
    bytes.extend_from_slice(b"AAAAAAAA");
    match OlmMessage::from(bytes).decode() {
        Err(DecodeError::ProtoBufError(PbError::InvalidWireType)) => {},
        other => panic!("expected InvalidWireType, got {:?}", other),
    }
}
