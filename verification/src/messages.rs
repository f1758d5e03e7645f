//! The two message envelopes: the normal ratchet message, whose body is
//! assembled by hand so that a zero chain index is still written out, and the
//! pre-key handshake message, whose body comes from the generic codec.

use crate::bytes::push_bytes;
use crate::error::DecodeError;
use crate::keys::{Curve25519PublicKey, KEY_LENGTH};
use crate::mac::{Mac, MAC_TRUNCATED_LEN};
use crate::protobuf::{
    decode_normal_fields, decode_prekey_fields, encode_bytes_field, field_bytes, field_uint,
    spec_bytes_field, spec_parse, Schema,
};
use crate::varint::{encode_varint, spec_varint};
use vstd::prelude::*;

verus! {

/// The one supported version byte; both message kinds start with it.
pub const VERSION: u8 = 3;

/// The tag byte of the ratchet-key field in a normal-message body.
pub const RATCHET_TAG: u8 = 0x0a;

/// The tag byte of the chain-index field in a normal-message body.
pub const INDEX_TAG: u8 = 0x10;

/// The tag byte of the ciphertext field in a normal-message body.
pub const CIPHER_TAG: u8 = 0x22;

/// The payload of a normal message: the version byte and the hand-assembled
/// body, without the trailing MAC.  The chain-index field is always written,
/// even when the index is zero; a generic encoder would drop it and a legacy
/// decoder cannot tolerate that.
pub open spec fn spec_olm_payload(key: Seq<u8>, index: u64, ct: Seq<u8>) -> Seq<u8> {
    seq![VERSION, RATCHET_TAG] + spec_varint(key.len() as int) + key + seq![INDEX_TAG]
        + spec_varint(index as int) + seq![CIPHER_TAG] + spec_varint(ct.len() as int) + ct
}

/// A freshly constructed normal message: its payload followed by the eight
/// zero placeholder bytes the MAC will overwrite.
pub open spec fn spec_olm_message(key: Seq<u8>, index: u64, ct: Seq<u8>) -> Seq<u8> {
    spec_olm_payload(key, index, ct) + seq![0u8, 0u8, 0u8, 0u8, 0u8, 0u8, 0u8, 0u8]
}

/// What a well-formed normal message decodes to.
pub struct SpecDecodedMessage {
    pub ratchet_key: Seq<u8>,
    pub chain_index: u64,
    pub ciphertext: Seq<u8>,
    pub mac: Seq<u8>,
}

/// The result of decoding a buffer as a normal message: first the version
/// byte is read (it must exist and be the supported constant), then the
/// buffer must be long enough to hold a MAC and a non-empty body, then the
/// bytes between version and MAC are parsed as a field stream, and finally
/// the ratchet-key field must be exactly 32 bytes.
pub open spec fn spec_decode_olm(bytes: Seq<u8>) -> Result<SpecDecodedMessage, DecodeError> {
    if bytes.len() == 0 {
        Err(DecodeError::MissingVersion)
    } else if bytes[0] != VERSION {
        Err(DecodeError::InvalidVersion(VERSION, bytes[0]))
    } else if bytes.len() < MAC_TRUNCATED_LEN + 2 {
        Err(DecodeError::MessageToShort(bytes.len() as usize))
    } else {
        match spec_parse(Schema::Normal, bytes.subrange(1, bytes.len() - 8)) {
            Err(e) => Err(DecodeError::ProtoBufError(e)),
            Ok(m) => if field_bytes(m, 1).len() != KEY_LENGTH {
                Err(DecodeError::InvalidKeyLength(KEY_LENGTH, field_bytes(m, 1).len() as usize))
            } else {
                Ok(
                    SpecDecodedMessage {
                        ratchet_key: field_bytes(m, 1),
                        chain_index: field_uint(m, 2),
                        ciphertext: field_bytes(m, 4),
                        mac: bytes.subrange(bytes.len() - 8, bytes.len() as int),
                    },
                )
            },
        }
    }
}

/// A decoded normal message, ready for the ratchet layer to verify and
/// decrypt.
#[derive(Debug)]
pub struct DecodedMessage {
    pub ratchet_key: Curve25519PublicKey,
    pub chain_index: u64,
    pub ciphertext: Vec<u8>,
    pub mac: [u8; 8],
}

impl View for DecodedMessage {
    type V = SpecDecodedMessage;

    open spec fn view(&self) -> SpecDecodedMessage {
        SpecDecodedMessage {
            ratchet_key: self.ratchet_key@,
            chain_index: self.chain_index,
            ciphertext: self.ciphertext@,
            mac: self.mac@,
        }
    }
}

/// A normal ratchet message: one owned buffer holding the version byte, the
/// body, and the eight trailing MAC bytes.
#[derive(Clone, Debug)]
pub struct OlmMessage {
    inner: Vec<u8>,
}

impl View for OlmMessage {
    type V = Seq<u8>;

    closed spec fn view(&self) -> Seq<u8> {
        self.inner@
    }
}

impl From<Vec<u8>> for OlmMessage {
    /// Wrap raw transport bytes without validating them; validation happens
    /// at decode time.
    fn from(bytes: Vec<u8>) -> (r: OlmMessage)
        ensures
            r@ == bytes@,
    {
        OlmMessage { inner: bytes }
    }
}

impl vstd::std_specs::convert::FromSpecImpl<Vec<u8>> for OlmMessage {
    open spec fn obeys_from_spec() -> bool {
        true
    }

    closed spec fn from_spec(bytes: Vec<u8>) -> OlmMessage {
        OlmMessage { inner: bytes }
    }
}

impl OlmMessage {
    /// The whole buffer, MAC bytes included.
    pub fn as_bytes(&self) -> (r: &[u8])
        ensures
            r@ == self@,
    {
        self.inner.as_slice()
    }

    /// The bytes the MAC is computed over: everything but the trailing
    /// eight, whether those still hold the placeholder or the real MAC.
    pub fn as_payload_bytes(&self) -> (r: &[u8])
        requires
            self@.len() >= 8,
        ensures
            r@ == self@.subrange(0, self@.len() - 8),
    {
        let end = self.inner.len();
        vstd::slice::slice_subrange(self.inner.as_slice(), 0, end - 8)
    }

    /// Give up the envelope and keep the raw buffer.
    pub fn into_vec(self) -> (r: Vec<u8>)
        ensures
            r@ == self@,
    {
        self.inner
    }

    /// Truncate an externally computed MAC and write it over the trailing
    /// placeholder bytes.  The buffer's length does not change.
    pub fn append_mac(&mut self, mac: Mac)
        requires
            old(self)@.len() >= 8,
        ensures
            final(self)@ == old(self)@.subrange(0, old(self)@.len() - 8) + mac@.subrange(0, 8),
    {
        let truncated = mac.truncate();
        self.append_mac_bytes(&truncated)
    }

    /// Write eight MAC bytes over the trailing placeholder bytes.
    pub fn append_mac_bytes(&mut self, mac: &[u8; 8])
        requires
            old(self)@.len() >= 8,
        ensures
            final(self)@ == old(self)@.subrange(0, old(self)@.len() - 8) + mac@,
    {
        let end = self.inner.len();
        self.inner.truncate(end - 8);
        push_bytes(&mut self.inner, mac.as_slice());
    }

    /// Decode the buffer, validating version, length and key size.  No MAC
    /// verification happens here; the raw MAC bytes are handed to the
    /// ratchet layer.
    pub fn decode(&self) -> (r: Result<DecodedMessage, DecodeError>)
        ensures
            match (r, spec_decode_olm(self@)) {
                (Ok(d), Ok(s)) => d@ == s,
                (Err(e), Err(se)) => e == se,
                _ => false,
            },
    {
        if self.inner.len() == 0 {
            return Err(DecodeError::MissingVersion);
        }
        let version = self.inner[0];
        if version != VERSION {
            return Err(DecodeError::InvalidVersion(VERSION, version));
        }
        let total = self.inner.len();
        if total < MAC_TRUNCATED_LEN + 2 {
            return Err(DecodeError::MessageToShort(total));
        }
        let body = vstd::slice::slice_subrange(self.inner.as_slice(), 1, total - 8);
        let fields = match decode_normal_fields(body) {
            Ok(f) => f,
            Err(e) => {
                return Err(DecodeError::ProtoBufError(e));
            },
        };
        if fields.ratchet_key.len() != KEY_LENGTH {
            return Err(DecodeError::InvalidKeyLength(KEY_LENGTH, fields.ratchet_key.len()));
        }
        // Always eight bytes once the length floor has passed; the explicit
        // check mirrors the wire contract.
        let mac_slice = vstd::slice::slice_subrange(self.inner.as_slice(), total - 8, total);
        if mac_slice.len() != MAC_TRUNCATED_LEN {
            return Err(DecodeError::InvalidMacLength(MAC_TRUNCATED_LEN, mac_slice.len()));
        }
        let ratchet_key = Curve25519PublicKey::from_slice(fields.ratchet_key.as_slice());
        let mut mac = [0u8; 8];
        let mac_out = vstd::array::ref_mut_array_unsizing_coercion(&mut mac);
        let mut i: usize = 0;
        while i < 8
            invariant
                i <= 8,
                mac_out@.len() == 8,
                mac_slice@.len() == 8,
                forall|j: int| 0 <= j < i ==> mac_out@[j] == mac_slice@[j],
            decreases 8 - i,
        {
            mac_out[i] = mac_slice[i];
            i = i + 1;
        }
        proof {
            assert(mac_out@ =~= mac_slice@);
        }
        Ok(
            DecodedMessage {
                ratchet_key,
                chain_index: fields.chain_index,
                ciphertext: fields.ciphertext,
                mac,
            },
        )
    }

    /// Assemble a normal message from its raw parts: version byte, the three
    /// hand-encoded fields, and the zero MAC placeholder.
    pub fn from_parts_untyped(ratchet_key: &[u8], index: u64, ciphertext: Vec<u8>) -> (r:
        OlmMessage)
        ensures
            r@ == spec_olm_message(ratchet_key@, index, ciphertext@),
    {
        let mut message: Vec<u8> = Vec::new();
        message.push(VERSION);
        message.push(RATCHET_TAG);
        let mut key_len = encode_varint(ratchet_key.len() as u64);
        message.append(&mut key_len);
        push_bytes(&mut message, ratchet_key);
        message.push(INDEX_TAG);
        let mut index_enc = encode_varint(index);
        message.append(&mut index_enc);
        message.push(CIPHER_TAG);
        let mut ct_len = encode_varint(ciphertext.len() as u64);
        message.append(&mut ct_len);
        push_bytes(&mut message, ciphertext.as_slice());
        let mut placeholder: Vec<u8> = vec![0u8; 8];
        let ghost ph = placeholder@;
        proof {
            assert forall|j: int| 0 <= j < 8 implies ph[j] == 0u8 by {
                assert(vstd::pervasive::cloned::<u8>(0u8, ph[j]));
            }
        }
        message.append(&mut placeholder);
        proof {
            assert(message@ =~= spec_olm_message(ratchet_key@, index, ciphertext@));
        }
        OlmMessage { inner: message }
    }

    /// Assemble a normal message from a typed ratchet key, a chain index and
    /// a ciphertext.
    pub fn from_parts(ratchet_key: &Curve25519PublicKey, index: u64, ciphertext: Vec<u8>) -> (r:
        OlmMessage)
        ensures
            r@ == spec_olm_message(ratchet_key@, index, ciphertext@),
    {
        OlmMessage::from_parts_untyped(ratchet_key.as_bytes().as_slice(), index, ciphertext)
    }
}

/// The pre-key body: the three public keys and the embedded message, run
/// through the generic encoder in ascending tag order.
pub open spec fn spec_prekey_body(
    one_time_key: Seq<u8>,
    base_key: Seq<u8>,
    identity_key: Seq<u8>,
    message: Seq<u8>,
) -> Seq<u8> {
    spec_bytes_field(1, one_time_key) + spec_bytes_field(2, base_key) + spec_bytes_field(
        3,
        identity_key,
    ) + spec_bytes_field(4, message)
}

/// A whole pre-key message: the version byte and the encoded body.  There is
/// no MAC of its own; integrity comes from the embedded message's MAC.
pub open spec fn spec_prekey_message(
    one_time_key: Seq<u8>,
    base_key: Seq<u8>,
    identity_key: Seq<u8>,
    message: Seq<u8>,
) -> Seq<u8> {
    seq![VERSION] + spec_prekey_body(one_time_key, base_key, identity_key, message)
}

/// What a well-formed pre-key message decodes to.
pub struct SpecDecodedPreKey {
    pub one_time_key: Seq<u8>,
    pub base_key: Seq<u8>,
    pub identity_key: Seq<u8>,
    pub message: Seq<u8>,
}

/// The result of decoding a buffer as a pre-key message: the version byte is
/// read, the rest is parsed as a field stream, and the three key fields are
/// checked to be exactly 32 bytes, one-time key first, then base key, then
/// identity key.  The embedded message stays raw bytes; decoding it is the
/// caller's business.
pub open spec fn spec_decode_prekey(bytes: Seq<u8>) -> Result<SpecDecodedPreKey, DecodeError> {
    if bytes.len() == 0 {
        Err(DecodeError::MissingVersion)
    } else if bytes[0] != VERSION {
        Err(DecodeError::InvalidVersion(VERSION, bytes[0]))
    } else {
        match spec_parse(Schema::PreKey, bytes.subrange(1, bytes.len() as int)) {
            Err(e) => Err(DecodeError::ProtoBufError(e)),
            Ok(m) => if field_bytes(m, 1).len() != KEY_LENGTH {
                Err(DecodeError::InvalidKeyLength(KEY_LENGTH, field_bytes(m, 1).len() as usize))
            } else if field_bytes(m, 2).len() != KEY_LENGTH {
                Err(DecodeError::InvalidKeyLength(KEY_LENGTH, field_bytes(m, 2).len() as usize))
            } else if field_bytes(m, 3).len() != KEY_LENGTH {
                Err(DecodeError::InvalidKeyLength(KEY_LENGTH, field_bytes(m, 3).len() as usize))
            } else {
                Ok(
                    SpecDecodedPreKey {
                        one_time_key: field_bytes(m, 1),
                        base_key: field_bytes(m, 2),
                        identity_key: field_bytes(m, 3),
                        message: field_bytes(m, 4),
                    },
                )
            },
        }
    }
}

/// A pre-key handshake message: one owned buffer holding the version byte
/// and the encoded body.
#[derive(Clone, Debug)]
pub struct PreKeyMessage {
    inner: Vec<u8>,
}

impl View for PreKeyMessage {
    type V = Seq<u8>;

    closed spec fn view(&self) -> Seq<u8> {
        self.inner@
    }
}

impl From<Vec<u8>> for PreKeyMessage {
    /// Wrap raw transport bytes without validating them; validation happens
    /// at decode time.
    fn from(bytes: Vec<u8>) -> (r: PreKeyMessage)
        ensures
            r@ == bytes@,
    {
        PreKeyMessage { inner: bytes }
    }
}

impl vstd::std_specs::convert::FromSpecImpl<Vec<u8>> for PreKeyMessage {
    open spec fn obeys_from_spec() -> bool {
        true
    }

    closed spec fn from_spec(bytes: Vec<u8>) -> PreKeyMessage {
        PreKeyMessage { inner: bytes }
    }
}

impl PreKeyMessage {
    /// Decode the buffer into the three public keys and the embedded
    /// message's raw bytes.
    pub fn decode(self) -> (r: Result<
        (Curve25519PublicKey, Curve25519PublicKey, Curve25519PublicKey, Vec<u8>),
        DecodeError,
    >)
        ensures
            match (r, spec_decode_prekey(self@)) {
                (Ok((otk, base, idk, msg)), Ok(s)) => {
                    &&& otk@ == s.one_time_key
                    &&& base@ == s.base_key
                    &&& idk@ == s.identity_key
                    &&& msg@ == s.message
                },
                (Err(e), Err(se)) => e == se,
                _ => false,
            },
    {
        if self.inner.len() == 0 {
            return Err(DecodeError::MissingVersion);
        }
        let version = self.inner[0];
        if version != VERSION {
            return Err(DecodeError::InvalidVersion(VERSION, version));
        }
        let total = self.inner.len();
        let body = vstd::slice::slice_subrange(self.inner.as_slice(), 1, total);
        let fields = match decode_prekey_fields(body) {
            Ok(f) => f,
            Err(e) => {
                return Err(DecodeError::ProtoBufError(e));
            },
        };
        if fields.one_time_key.len() != KEY_LENGTH {
            return Err(DecodeError::InvalidKeyLength(KEY_LENGTH, fields.one_time_key.len()));
        }
        if fields.base_key.len() != KEY_LENGTH {
            return Err(DecodeError::InvalidKeyLength(KEY_LENGTH, fields.base_key.len()));
        }
        if fields.identity_key.len() != KEY_LENGTH {
            return Err(DecodeError::InvalidKeyLength(KEY_LENGTH, fields.identity_key.len()));
        }
        let one_time_key = Curve25519PublicKey::from_slice(fields.one_time_key.as_slice());
        let base_key = Curve25519PublicKey::from_slice(fields.base_key.as_slice());
        let identity_key = Curve25519PublicKey::from_slice(fields.identity_key.as_slice());
        Ok((one_time_key, base_key, identity_key, fields.message))
    }

    /// Assemble a pre-key message from raw key bytes and the embedded
    /// message's bytes.
    pub fn from_parts_untyped(
        one_time_key: &[u8],
        base_key: &[u8],
        identity_key: &[u8],
        message: &[u8],
    ) -> (r: PreKeyMessage)
        ensures
            r@ == spec_prekey_message(one_time_key@, base_key@, identity_key@, message@),
    {
        let mut output: Vec<u8> = Vec::new();
        output.push(VERSION);
        encode_bytes_field(&mut output, 1, one_time_key);
        encode_bytes_field(&mut output, 2, base_key);
        encode_bytes_field(&mut output, 3, identity_key);
        encode_bytes_field(&mut output, 4, message);
        proof {
            assert(output@ =~= spec_prekey_message(
                one_time_key@,
                base_key@,
                identity_key@,
                message@,
            ));
        }
        PreKeyMessage { inner: output }
    }

    /// Assemble a pre-key message from the three typed public keys and the
    /// embedded message's bytes.
    pub fn from_parts(
        one_time_key: &Curve25519PublicKey,
        base_key: &Curve25519PublicKey,
        identity_key: &Curve25519PublicKey,
        message: Vec<u8>,
    ) -> (r: PreKeyMessage)
        ensures
            r@ == spec_prekey_message(one_time_key@, base_key@, identity_key@, message@),
    {
        PreKeyMessage::from_parts_untyped(
            one_time_key.as_bytes().as_slice(),
            base_key.as_bytes().as_slice(),
            identity_key.as_bytes().as_slice(),
            message.as_slice(),
        )
    }

    /// Give up the envelope and keep the raw buffer.
    pub fn into_vec(self) -> (r: Vec<u8>)
        ensures
            r@ == self@,
    {
        self.inner
    }
}

} // verus!
