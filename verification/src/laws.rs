//! The properties the codec promises, proved once and for all inputs.

use crate::error::DecodeError;
use crate::keys::KEY_LENGTH;
use crate::mac::MAC_TRUNCATED_LEN;
use crate::messages::{
    spec_decode_olm, spec_decode_prekey, spec_olm_message, spec_olm_payload,
    spec_prekey_message, SpecDecodedMessage, SpecDecodedPreKey, CIPHER_TAG, INDEX_TAG,
    RATCHET_TAG, VERSION,
};
use crate::protobuf::{
    field_bytes, field_uint, spec_bytes_field, spec_parse, spec_parse_fields, PbValue, Schema,
};
use crate::varint::{
    lemma_varint_enc_dec, lemma_varint_len_bound, spec_varint, spec_varint_dec,
};
use vstd::arithmetic::power2::{lemma2_to64, lemma2_to64_rest, lemma_pow2_strictly_increases};
use vstd::prelude::*;

verus! {

/// Law: decoding a constructed normal message gives back its parts.  For
/// every ratchet key of 32 bytes, every chain index and every ciphertext,
/// the payload built from them followed by any eight MAC bytes decodes to
/// exactly those parts and that MAC.
#[verifier::rlimit(60)]
pub proof fn lemma_olm_round_trip(key: Seq<u8>, index: u64, ct: Seq<u8>, mac: Seq<u8>)
    requires
        key.len() == 32,
        mac.len() == 8,
        ct.len() <= u64::MAX,
    ensures
        spec_decode_olm(spec_olm_payload(key, index, ct) + mac) == Ok::<
            SpecDecodedMessage,
            DecodeError,
        >(SpecDecodedMessage { ratchet_key: key, chain_index: index, ciphertext: ct, mac }),
{
    lemma2_to64();
    lemma2_to64_rest();
    let payload = spec_olm_payload(key, index, ct);
    let bytes = payload + mac;
    let body = seq![RATCHET_TAG] + spec_varint(32) + key + seq![INDEX_TAG] + spec_varint(
        index as int,
    ) + seq![CIPHER_TAG] + spec_varint(ct.len() as int) + ct;
    assert(spec_varint(32) == seq![32u8]);
    lemma_pow2_strictly_increases(64nat, 70nat);
    lemma_varint_len_bound(index as int, 10);
    lemma_varint_len_bound(ct.len() as int, 10);
    let li = spec_varint(index as int).len() as int;
    let lc = spec_varint(ct.len() as int).len() as int;
    assert(payload =~= seq![VERSION] + body);
    assert(bytes[0] == VERSION);
    assert(bytes.len() == body.len() + 9);
    assert(bytes.len() >= MAC_TRUNCATED_LEN + 2);
    assert(bytes.subrange(1, bytes.len() - 8) =~= body);
    assert(bytes.subrange(bytes.len() - 8, bytes.len() as int) =~= mac);

    // First field: the ratchet key, tag 0x0a, 32 bytes.
    let s = Schema::Normal;
    assert(body[0] == RATCHET_TAG);
    assert(spec_varint_dec(body, 0) == Ok::<(int, int), crate::varint::VarintError>((10, 1)));
    assert(body[1] == 32u8);
    assert(spec_varint_dec(body, 1) == Ok::<(int, int), crate::varint::VarintError>((32, 2)));
    assert(body.subrange(2, 34) =~= key);
    let acc1 = Map::<int, PbValue>::empty().insert(1, PbValue::Bytes(key));
    assert(spec_parse_fields(s, body, 0, Map::empty()) == spec_parse_fields(s, body, 34, acc1));

    // Second field: the chain index, tag 0x10, a varint.
    assert(body[34] == INDEX_TAG);
    assert(spec_varint_dec(body, 34) == Ok::<(int, int), crate::varint::VarintError>((16, 35)));
    assert(body.subrange(35, 35 + li) =~= spec_varint(index as int));
    lemma_varint_enc_dec(body, 35, index as int, 0);
    let acc2 = acc1.insert(2, PbValue::Uint(index));
    assert(spec_parse_fields(s, body, 34, acc1) == spec_parse_fields(s, body, 35 + li, acc2));

    // Third field: the ciphertext, tag 0x22, length-prefixed bytes.
    let p = 35 + li;
    assert(body[p] == CIPHER_TAG);
    assert(spec_varint_dec(body, p) == Ok::<(int, int), crate::varint::VarintError>((34, p + 1)));
    assert(body.subrange(p + 1, p + 1 + lc) =~= spec_varint(ct.len() as int));
    lemma_varint_enc_dec(body, p + 1, ct.len() as int, 0);
    assert(spec_varint_dec(body, p + 1) == Ok::<(int, int), crate::varint::VarintError>(
        (ct.len() as int, p + 1 + lc),
    ));
    assert(p + 1 + lc + ct.len() == body.len());
    assert(body.subrange(p + 1 + lc, p + 1 + lc + ct.len()) =~= ct);
    let acc3 = acc2.insert(4, PbValue::Bytes(ct));
    assert(spec_parse_fields(s, body, p, acc2) == spec_parse_fields(
        s,
        body,
        body.len() as int,
        acc3,
    ));
    assert(spec_parse_fields(s, body, body.len() as int, acc3) == Ok::<
        Map<int, PbValue>,
        crate::protobuf::PbError,
    >(acc3));

    assert(field_bytes(acc3, 1) == key);
    assert(field_uint(acc3, 2) == index);
    assert(field_bytes(acc3, 4) == ct);
}

/// Law: a chain index of zero is still written and still read back.  The
/// index field is encoded even at its default value, and decoding the
/// message recovers zero.
pub proof fn lemma_zero_index_round_trip(key: Seq<u8>, ct: Seq<u8>, mac: Seq<u8>)
    requires
        key.len() == 32,
        mac.len() == 8,
        ct.len() <= u64::MAX,
    ensures
        spec_varint(0) == seq![0u8],
        spec_decode_olm(spec_olm_payload(key, 0, ct) + mac) matches Ok(s) && s.chain_index == 0,
{
    lemma_olm_round_trip(key, 0, ct, mac);
}

/// Law: the payload never includes the trailing eight MAC bytes.  Writing a
/// MAC over the trailing bytes keeps the buffer's length and leaves the
/// payload exactly as it was, whether the trailing bytes still held the
/// placeholder or an earlier MAC.
pub proof fn lemma_payload_mac_separation(bytes: Seq<u8>, mac: Seq<u8>)
    requires
        bytes.len() >= 8,
        mac.len() == 8,
    ensures
        ({
            let after = bytes.subrange(0, bytes.len() - 8) + mac;
            &&& after.len() == bytes.len()
            &&& after.subrange(0, after.len() - 8) == bytes.subrange(0, bytes.len() - 8)
        }),
{
    let after = bytes.subrange(0, bytes.len() - 8) + mac;
    assert(after.subrange(0, after.len() - 8) =~= bytes.subrange(0, bytes.len() - 8));
}

/// Law: a buffer whose first byte is not the supported version is rejected
/// by both decoders with an error naming the expected and the actual byte.
pub proof fn lemma_version_rejection(bytes: Seq<u8>)
    requires
        bytes.len() > 0,
        bytes[0] != VERSION,
    ensures
        spec_decode_olm(bytes) == Err::<SpecDecodedMessage, DecodeError>(
            DecodeError::InvalidVersion(VERSION, bytes[0]),
        ),
        spec_decode_prekey(bytes) == Err::<crate::messages::SpecDecodedPreKey, DecodeError>(
            DecodeError::InvalidVersion(VERSION, bytes[0]),
        ),
{
}

/// Law: a normal-message buffer shorter than ten bytes is rejected with a
/// too-short error carrying the actual length, once its version byte has
/// passed.
pub proof fn lemma_length_floor(bytes: Seq<u8>)
    requires
        bytes.len() > 0,
        bytes[0] == VERSION,
        bytes.len() < MAC_TRUNCATED_LEN + 2,
    ensures
        spec_decode_olm(bytes) == Err::<SpecDecodedMessage, DecodeError>(
            DecodeError::MessageToShort(bytes.len() as usize),
        ),
{
}

/// Law: no decoded key has a length other than 32, for either message kind;
/// and a structurally parseable normal message whose key field has any other
/// length is rejected with an error naming 32 and the actual length.
pub proof fn lemma_key_length_enforcement(bytes: Seq<u8>)
    ensures
        spec_decode_olm(bytes) matches Ok(s) ==> s.ratchet_key.len() == KEY_LENGTH,
        spec_decode_prekey(bytes) matches Ok(s) ==> s.one_time_key.len() == KEY_LENGTH
            && s.base_key.len() == KEY_LENGTH && s.identity_key.len() == KEY_LENGTH,
        (bytes.len() >= MAC_TRUNCATED_LEN + 2 && bytes[0] == VERSION && spec_parse(
            Schema::Normal,
            bytes.subrange(1, bytes.len() - 8),
        ) is Ok && field_bytes(
            spec_parse(Schema::Normal, bytes.subrange(1, bytes.len() - 8))->Ok_0,
            1,
        ).len() != KEY_LENGTH) ==> spec_decode_olm(bytes)
            == Err::<SpecDecodedMessage, DecodeError>(
            DecodeError::InvalidKeyLength(
                KEY_LENGTH,
                field_bytes(
                    spec_parse(Schema::Normal, bytes.subrange(1, bytes.len() - 8))->Ok_0,
                    1,
                ).len() as usize,
            ),
        ),
{
}


/// Law: decoding a constructed pre-key message gives back its parts.  For
/// every triple of 32-byte keys and every embedded message, the encoded
/// pre-key message decodes to exactly those keys and that message; an empty
/// embedded message is omitted on the wire and read back as empty.
#[verifier::rlimit(60)]
pub proof fn lemma_prekey_round_trip(otk: Seq<u8>, base: Seq<u8>, idk: Seq<u8>, msg: Seq<u8>)
    requires
        otk.len() == 32,
        base.len() == 32,
        idk.len() == 32,
        msg.len() <= u64::MAX,
    ensures
        spec_decode_prekey(spec_prekey_message(otk, base, idk, msg)) == Ok::<
            SpecDecodedPreKey,
            DecodeError,
        >(
            SpecDecodedPreKey {
                one_time_key: otk,
                base_key: base,
                identity_key: idk,
                message: msg,
            },
        ),
{
    lemma2_to64();
    lemma2_to64_rest();
    lemma_pow2_strictly_increases(64nat, 70nat);
    lemma_varint_len_bound(msg.len() as int, 10);
    let bytes = spec_prekey_message(otk, base, idk, msg);
    assert(spec_varint(32) == seq![32u8]);
    assert(spec_bytes_field(1, otk) == seq![10u8, 32u8] + otk) by {
        assert(seq![10u8] + spec_varint(32) + otk =~= seq![10u8, 32u8] + otk);
    }
    assert(spec_bytes_field(2, base) == seq![18u8, 32u8] + base) by {
        assert(seq![18u8] + spec_varint(32) + base =~= seq![18u8, 32u8] + base);
    }
    assert(spec_bytes_field(3, idk) == seq![26u8, 32u8] + idk) by {
        assert(seq![26u8] + spec_varint(32) + idk =~= seq![26u8, 32u8] + idk);
    }
    let body = spec_bytes_field(1, otk) + spec_bytes_field(2, base) + spec_bytes_field(3, idk)
        + spec_bytes_field(4, msg);
    assert(bytes[0] == VERSION);
    assert(bytes.subrange(1, bytes.len() as int) =~= body);

    let s = Schema::PreKey;
    assert(body[0] == 10u8);
    assert(spec_varint_dec(body, 0) == Ok::<(int, int), crate::varint::VarintError>((10, 1)));
    assert(body[1] == 32u8);
    assert(spec_varint_dec(body, 1) == Ok::<(int, int), crate::varint::VarintError>((32, 2)));
    assert(body.subrange(2, 34) =~= otk);
    let acc1 = Map::<int, PbValue>::empty().insert(1, PbValue::Bytes(otk));
    assert(spec_parse_fields(s, body, 0, Map::empty()) == spec_parse_fields(s, body, 34, acc1));

    assert(body[34] == 18u8);
    assert(spec_varint_dec(body, 34) == Ok::<(int, int), crate::varint::VarintError>((18, 35)));
    assert(body[35] == 32u8);
    assert(spec_varint_dec(body, 35) == Ok::<(int, int), crate::varint::VarintError>((32, 36)));
    assert(body.subrange(36, 68) =~= base);
    let acc2 = acc1.insert(2, PbValue::Bytes(base));
    assert(spec_parse_fields(s, body, 34, acc1) == spec_parse_fields(s, body, 68, acc2));

    assert(body[68] == 26u8);
    assert(spec_varint_dec(body, 68) == Ok::<(int, int), crate::varint::VarintError>((26, 69)));
    assert(body[69] == 32u8);
    assert(spec_varint_dec(body, 69) == Ok::<(int, int), crate::varint::VarintError>((32, 70)));
    assert(body.subrange(70, 102) =~= idk);
    let acc3 = acc2.insert(3, PbValue::Bytes(idk));
    assert(spec_parse_fields(s, body, 68, acc2) == spec_parse_fields(s, body, 102, acc3));

    if msg.len() == 0 {
        assert(body.len() == 102);
        assert(spec_parse_fields(s, body, 102, acc3) == Ok::<
            Map<int, PbValue>,
            crate::protobuf::PbError,
        >(acc3));
        assert(field_bytes(acc3, 4) =~= msg);
    } else {
        let lm = spec_varint(msg.len() as int).len() as int;
        assert(body[102] == 34u8);
        assert(spec_varint_dec(body, 102) == Ok::<(int, int), crate::varint::VarintError>(
            (34, 103),
        ));
        assert(body.subrange(103, 103 + lm) =~= spec_varint(msg.len() as int));
        lemma_varint_enc_dec(body, 103, msg.len() as int, 0);
        assert(103 + lm + msg.len() == body.len());
        assert(body.subrange(103 + lm, 103 + lm + msg.len()) =~= msg);
        let acc4 = acc3.insert(4, PbValue::Bytes(msg));
        assert(spec_parse_fields(s, body, 102, acc3) == spec_parse_fields(
            s,
            body,
            body.len() as int,
            acc4,
        ));
        assert(spec_parse_fields(s, body, body.len() as int, acc4) == Ok::<
            Map<int, PbValue>,
            crate::protobuf::PbError,
        >(acc4));
    }
}

/// Law: a freshly constructed normal message is its payload followed by the
/// eight placeholder bytes, so the payload accessor returns exactly the
/// bytes fixed at construction time, and writing the real MAC over the
/// placeholder yields the payload followed by that MAC.
pub proof fn lemma_fresh_message_layout(key: Seq<u8>, index: u64, ct: Seq<u8>, mac: Seq<u8>)
    requires
        mac.len() == 8,
    ensures
        ({
            let fresh = spec_olm_message(key, index, ct);
            let payload = spec_olm_payload(key, index, ct);
            &&& fresh.len() == payload.len() + 8
            &&& fresh.subrange(0, fresh.len() - 8) == payload
            &&& fresh.subrange(0, fresh.len() - 8) + mac == payload + mac
        }),
{
    let fresh = spec_olm_message(key, index, ct);
    let payload = spec_olm_payload(key, index, ct);
    assert(fresh.subrange(0, fresh.len() - 8) =~= payload);
}

} // verus!
