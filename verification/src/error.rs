//! Everything decoding can reject, as one closed taxonomy.  Construction
//! from well-typed parts cannot fail, so these errors are decode-only.

use crate::protobuf::PbError;
use vstd::prelude::*;

verus! {

/// `ed25519_dalek::SignatureError`, declared so a decode error can carry a
/// signature-validation failure raised by a collaborator that shares this
/// taxonomy.  The codec itself never produces one.
#[verifier::external_type_specification]
#[verifier::external_body]
pub struct ExSignatureError(ed25519_dalek::SignatureError);

/// A reason a received buffer was rejected.
#[derive(Debug)]
pub enum DecodeError {
    /// The buffer was empty: there is no version byte to read.
    MissingVersion,
    /// The buffer is shorter than the smallest well-formed message; the
    /// payload carries the actual length.
    MessageToShort(usize),
    /// The version byte is not the supported constant: expected, then got.
    InvalidVersion(u8, u8),
    /// A decoded public key is not exactly 32 bytes: expected, then got.
    InvalidKeyLength(usize, usize),
    /// The trailing MAC slice is not exactly 8 bytes: expected, then got.
    InvalidMacLength(usize, usize),
    /// A collaborator's signature validation failed.
    Signature(ed25519_dalek::SignatureError),
    /// The structured payload between version byte and MAC is malformed.
    ProtoBufError(PbError),
}

impl From<ed25519_dalek::SignatureError> for DecodeError {
    fn from(e: ed25519_dalek::SignatureError) -> (r: DecodeError) {
        DecodeError::Signature(e)
    }
}

impl vstd::std_specs::convert::FromSpecImpl<ed25519_dalek::SignatureError> for DecodeError {
    open spec fn obeys_from_spec() -> bool {
        true
    }

    open spec fn from_spec(e: ed25519_dalek::SignatureError) -> DecodeError {
        DecodeError::Signature(e)
    }
}

impl From<PbError> for DecodeError {
    fn from(e: PbError) -> (r: DecodeError) {
        DecodeError::ProtoBufError(e)
    }
}

impl vstd::std_specs::convert::FromSpecImpl<PbError> for DecodeError {
    open spec fn obeys_from_spec() -> bool {
        true
    }

    open spec fn from_spec(e: PbError) -> DecodeError {
        DecodeError::ProtoBufError(e)
    }
}

} // verus!
