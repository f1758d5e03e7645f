//! Wire codec for the message envelopes of a Double-Ratchet ("Olm"-style)
//! encrypted session.
//!
//! The crate turns ratchet state (a sender's current ratchet public key, a
//! chain index and an opaque ciphertext) into the exact legacy byte layout a
//! reference decoder expects, and validates incoming buffers (version, length
//! and field-size checks) before any cryptographic material is trusted.

pub mod bytes;
pub mod error;
pub mod keys;
pub mod laws;
pub mod mac;
pub mod messages;
pub mod protobuf;
pub mod varint;

pub use error::DecodeError;
pub use keys::Curve25519PublicKey;
pub use mac::Mac;
pub use messages::DecodedMessage;
pub use messages::OlmMessage;
pub use messages::PreKeyMessage;
pub use varint::encode_varint;
pub use varint::required_encoded_space_unsigned;
