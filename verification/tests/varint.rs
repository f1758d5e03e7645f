use olm_wire::{encode_varint, required_encoded_space_unsigned};

const SAMPLES: [u64; 8] = [0, 1, 127, 128, 300, 16383, 16384, u64::MAX];

#[test]
fn varint_known_encodings() {
    assert_eq!(encode_varint(0), vec![0x00]);
    assert_eq!(encode_varint(1), vec![0x01]);
    assert_eq!(encode_varint(127), vec![0x7f]);
    assert_eq!(encode_varint(128), vec![0x80, 0x01]);
    assert_eq!(encode_varint(300), vec![0xac, 0x02]);
    assert_eq!(
        encode_varint(u64::MAX),
        vec![0xff, 0xff, 0xff, 0xff, 0xff, 0xff, 0xff, 0xff, 0xff, 0x01],
    );
}

#[test]
fn varint_required_space_matches_encoding() {
    for v in SAMPLES {
        assert_eq!(required_encoded_space_unsigned(v), encode_varint(v).len());
    }
    assert_eq!(required_encoded_space_unsigned(0), 1);
    assert_eq!(required_encoded_space_unsigned(u64::MAX), 10);
}

#[test]
fn varint_agrees_with_prost() {
    for v in SAMPLES {
        let mine = encode_varint(v);

        let mut theirs = Vec::new();
        prost::encoding::encode_varint(v, &mut theirs);
        assert_eq!(mine, theirs);

        let decoded = prost::encoding::decode_varint(&mut mine.as_slice()).unwrap();
        assert_eq!(decoded, v);
    }
}
