//! The small structured codec behind both message bodies: a flat list of
//! tagged fields in the tag + varint-length + value wire convention, with the
//! permissive decoding rules a legacy counterpart relies on (last occurrence
//! of a field wins, unknown fields are skipped).

use crate::bytes::push_bytes;
use crate::varint::{
    decode_varint, encode_varint, lemma_varint_dec_bounds, spec_varint, spec_varint_dec,
    VarintError,
};
use vstd::prelude::*;

verus! {

/// A structural decoding failure: the buffer is not a well-formed field
/// stream.
#[derive(Clone, Copy, Debug, PartialEq, Eq, Structural)]
pub enum PbError {
    /// The buffer ended inside a field's tag.
    TruncatedTag,
    /// The buffer ended inside the length prefix of a byte field.
    TruncatedLength,
    /// The buffer ended inside a field's value.
    TruncatedValue,
    /// A varint ran past the ten bytes that can carry a 64-bit value.
    InvalidVarint,
    /// A tag named field number zero, which the wire format reserves.
    InvalidFieldNumber,
    /// A wire type that is not supported, or does not match the schema's
    /// type for that field.
    InvalidWireType,
}

/// The value a decoded field holds.
pub enum PbValue {
    Uint(u64),
    Bytes(Seq<u8>),
}

/// The two field layouts this crate decodes.
#[derive(Clone, Copy, Debug, PartialEq, Eq, Structural)]
pub enum Schema {
    /// A normal ratchet message body: field 1 the ratchet key (bytes),
    /// field 2 the chain index (varint), field 4 the ciphertext (bytes).
    Normal,
    /// A pre-key message body: fields 1 to 4 are the one-time key, base
    /// key, identity key and embedded message, all byte fields.
    PreKey,
}

/// The wire type a schema expects for a field: 0 for a varint, 2 for a
/// length-prefixed byte field, `None` for a field the schema ignores.
pub open spec fn expected_wire(s: Schema, field: int) -> Option<int> {
    match s {
        Schema::Normal => if field == 1 || field == 4 {
            Some(2int)
        } else if field == 2 {
            Some(0int)
        } else {
            None
        },
        Schema::PreKey => if 1 <= field <= 4 {
            Some(2int)
        } else {
            None
        },
    }
}

/// Whether a schema keeps the value of a field.
pub open spec fn is_known(s: Schema, field: int) -> bool {
    expected_wire(s, field) is Some
}

/// Parsing the field stream of `bytes` from `pos` on, with the fields
/// decoded so far in `acc`.  Each known field's last occurrence is kept;
/// unknown fields of any supported wire type are skipped; a known field with
/// the wrong wire type, and anything not well formed, is an error.
pub open spec fn spec_parse_fields(
    s: Schema,
    bytes: Seq<u8>,
    pos: int,
    acc: Map<int, PbValue>,
) -> Result<Map<int, PbValue>, PbError>
    decreases bytes.len() - pos
        when 0 <= pos <= bytes.len()
{
    if pos >= bytes.len() {
        Ok(acc)
    } else {
        proof {
            lemma_varint_dec_bounds(bytes, pos, 0);
        }
        match spec_varint_dec(bytes, pos) {
            Err(VarintError::Truncated) => Err(PbError::TruncatedTag),
            Err(VarintError::TooLong) => Err(PbError::InvalidVarint),
            Ok((key, p1)) => {
                proof {
                    lemma_varint_dec_bounds(bytes, p1, 0);
                }
                let field = key / 8;
                let wire = key % 8;
                if field == 0 {
                    Err(PbError::InvalidFieldNumber)
                } else if expected_wire(s, field) matches Some(w) && wire != w {
                    Err(PbError::InvalidWireType)
                } else if wire == 0 {
                    match spec_varint_dec(bytes, p1) {
                        Err(VarintError::Truncated) => Err(PbError::TruncatedValue),
                        Err(VarintError::TooLong) => Err(PbError::InvalidVarint),
                        Ok((v, p2)) => spec_parse_fields(
                            s,
                            bytes,
                            p2,
                            if is_known(s, field) {
                                acc.insert(field, PbValue::Uint(v as u64))
                            } else {
                                acc
                            },
                        ),
                    }
                } else if wire == 2 {
                    match spec_varint_dec(bytes, p1) {
                        Err(VarintError::Truncated) => Err(PbError::TruncatedLength),
                        Err(VarintError::TooLong) => Err(PbError::InvalidVarint),
                        Ok((len, p2)) => if p2 + len <= bytes.len() {
                            spec_parse_fields(
                                s,
                                bytes,
                                p2 + len,
                                if is_known(s, field) {
                                    acc.insert(field, PbValue::Bytes(bytes.subrange(p2, p2 + len)))
                                } else {
                                    acc
                                },
                            )
                        } else {
                            Err(PbError::TruncatedValue)
                        },
                    }
                } else if wire == 1 {
                    if p1 + 8 <= bytes.len() {
                        spec_parse_fields(s, bytes, p1 + 8, acc)
                    } else {
                        Err(PbError::TruncatedValue)
                    }
                } else if wire == 5 {
                    if p1 + 4 <= bytes.len() {
                        spec_parse_fields(s, bytes, p1 + 4, acc)
                    } else {
                        Err(PbError::TruncatedValue)
                    }
                } else {
                    Err(PbError::InvalidWireType)
                }
            },
        }
    }
}

/// Parsing a whole field stream with nothing decoded yet.
pub open spec fn spec_parse(s: Schema, bytes: Seq<u8>) -> Result<Map<int, PbValue>, PbError> {
    spec_parse_fields(s, bytes, 0, Map::empty())
}

/// The bytes a decoded byte field holds, or the empty sequence where the
/// field was absent.
pub open spec fn field_bytes(m: Map<int, PbValue>, field: int) -> Seq<u8> {
    if m.dom().contains(field) {
        match m[field] {
            PbValue::Bytes(b) => b,
            PbValue::Uint(_) => Seq::empty(),
        }
    } else {
        Seq::empty()
    }
}

/// The value a decoded varint field holds, or zero where the field was
/// absent.
pub open spec fn field_uint(m: Map<int, PbValue>, field: int) -> u64 {
    if m.dom().contains(field) {
        match m[field] {
            PbValue::Uint(v) => v,
            PbValue::Bytes(_) => 0,
        }
    } else {
        0
    }
}

/// The fields of a decoded normal-message body.
pub struct NormalFields {
    pub ratchet_key: Vec<u8>,
    pub chain_index: u64,
    pub ciphertext: Vec<u8>,
}

/// The fields of a decoded pre-key message body.
pub struct PreKeyFields {
    pub one_time_key: Vec<u8>,
    pub base_key: Vec<u8>,
    pub identity_key: Vec<u8>,
    pub message: Vec<u8>,
}

/// Decode a normal-message body.
pub fn decode_normal_fields(bytes: &[u8]) -> (r: Result<NormalFields, PbError>)
    ensures
        match (r, spec_parse(Schema::Normal, bytes@)) {
            (Ok(f), Ok(m)) => {
                &&& f.ratchet_key@ == field_bytes(m, 1)
                &&& f.chain_index == field_uint(m, 2)
                &&& f.ciphertext@ == field_bytes(m, 4)
            },
            (Err(e), Err(se)) => e == se,
            _ => false,
        },
{
    let ghost s = Schema::Normal;
    let mut pos: usize = 0;
    let mut ratchet_key: Vec<u8> = Vec::new();
    let mut chain_index: u64 = 0;
    let mut ciphertext: Vec<u8> = Vec::new();
    let ghost mut acc: Map<int, PbValue> = Map::empty();
    while pos < bytes.len()
        invariant
            s == Schema::Normal,
            pos <= bytes@.len(),
            spec_parse(s, bytes@) == spec_parse_fields(s, bytes@, pos as int, acc),
            ratchet_key@ == field_bytes(acc, 1),
            chain_index == field_uint(acc, 2),
            ciphertext@ == field_bytes(acc, 4),
        decreases bytes@.len() - pos,
    {
        let ghost pos0 = pos as int;
        let ghost acc0 = acc;
        let (key, p1) = match decode_varint(bytes, pos) {
            Ok(kp) => kp,
            Err(VarintError::Truncated) => {
                proof {
                    assert(spec_parse_fields(s, bytes@, pos0, acc0)
                        == Err::<Map<int, PbValue>, PbError>(PbError::TruncatedTag));
                }
                return Err(PbError::TruncatedTag);
            },
            Err(VarintError::TooLong) => {
                proof {
                    assert(spec_parse_fields(s, bytes@, pos0, acc0)
                        == Err::<Map<int, PbValue>, PbError>(PbError::InvalidVarint));
                }
                return Err(PbError::InvalidVarint);
            },
        };
        let field = key / 8;
        let wire = key % 8;
        if field == 0 {
            proof {
                assert(spec_parse_fields(s, bytes@, pos0, acc0)
                    == Err::<Map<int, PbValue>, PbError>(PbError::InvalidFieldNumber));
            }
            return Err(PbError::InvalidFieldNumber);
        }
        if (field == 1 || field == 4) && wire != 2 {
            proof {
                assert(spec_parse_fields(s, bytes@, pos0, acc0)
                    == Err::<Map<int, PbValue>, PbError>(PbError::InvalidWireType));
            }
            return Err(PbError::InvalidWireType);
        }
        if field == 2 && wire != 0 {
            proof {
                assert(spec_parse_fields(s, bytes@, pos0, acc0)
                    == Err::<Map<int, PbValue>, PbError>(PbError::InvalidWireType));
            }
            return Err(PbError::InvalidWireType);
        }
        if wire == 0 {
            let (v, p2) = match decode_varint(bytes, p1) {
                Ok(vp) => vp,
                Err(VarintError::Truncated) => {
                    proof {
                        assert(spec_parse_fields(s, bytes@, pos0, acc0)
                            == Err::<Map<int, PbValue>, PbError>(PbError::TruncatedValue));
                    }
                    return Err(PbError::TruncatedValue);
                },
                Err(VarintError::TooLong) => {
                    proof {
                        assert(spec_parse_fields(s, bytes@, pos0, acc0)
                            == Err::<Map<int, PbValue>, PbError>(PbError::InvalidVarint));
                    }
                    return Err(PbError::InvalidVarint);
                },
            };
            if field == 2 {
                chain_index = v;
                proof {
                    acc = acc.insert(2, PbValue::Uint(v));
                }
            }
            pos = p2;
        } else if wire == 2 {
            let (len, p2) = match decode_varint(bytes, p1) {
                Ok(lp) => lp,
                Err(VarintError::Truncated) => {
                    proof {
                        assert(spec_parse_fields(s, bytes@, pos0, acc0)
                            == Err::<Map<int, PbValue>, PbError>(PbError::TruncatedLength));
                    }
                    return Err(PbError::TruncatedLength);
                },
                Err(VarintError::TooLong) => {
                    proof {
                        assert(spec_parse_fields(s, bytes@, pos0, acc0)
                            == Err::<Map<int, PbValue>, PbError>(PbError::InvalidVarint));
                    }
                    return Err(PbError::InvalidVarint);
                },
            };
            if len > (bytes.len() - p2) as u64 {
                proof {
                    assert(spec_parse_fields(s, bytes@, pos0, acc0)
                        == Err::<Map<int, PbValue>, PbError>(PbError::TruncatedValue));
                }
                return Err(PbError::TruncatedValue);
            }
            let end = p2 + (len as usize);
            if field == 1 {
                ratchet_key = vstd::slice::slice_to_vec(vstd::slice::slice_subrange(bytes, p2, end));
                proof {
                    acc = acc.insert(1, PbValue::Bytes(bytes@.subrange(p2 as int, end as int)));
                }
            } else if field == 4 {
                ciphertext = vstd::slice::slice_to_vec(vstd::slice::slice_subrange(bytes, p2, end));
                proof {
                    acc = acc.insert(4, PbValue::Bytes(bytes@.subrange(p2 as int, end as int)));
                }
            }
            pos = end;
        } else if wire == 1 {
            if bytes.len() - p1 < 8 {
                proof {
                    assert(spec_parse_fields(s, bytes@, pos0, acc0)
                        == Err::<Map<int, PbValue>, PbError>(PbError::TruncatedValue));
                }
                return Err(PbError::TruncatedValue);
            }
            pos = p1 + 8;
        } else if wire == 5 {
            if bytes.len() - p1 < 4 {
                proof {
                    assert(spec_parse_fields(s, bytes@, pos0, acc0)
                        == Err::<Map<int, PbValue>, PbError>(PbError::TruncatedValue));
                }
                return Err(PbError::TruncatedValue);
            }
            pos = p1 + 4;
        } else {
            proof {
                assert(spec_parse_fields(s, bytes@, pos0, acc0)
                    == Err::<Map<int, PbValue>, PbError>(PbError::InvalidWireType));
            }
            return Err(PbError::InvalidWireType);
        }
        proof {
            assert(spec_parse_fields(s, bytes@, pos0, acc0)
                == spec_parse_fields(s, bytes@, pos as int, acc));
        }
    }
    Ok(NormalFields { ratchet_key, chain_index, ciphertext })
}

/// Decode a pre-key message body.
pub fn decode_prekey_fields(bytes: &[u8]) -> (r: Result<PreKeyFields, PbError>)
    ensures
        match (r, spec_parse(Schema::PreKey, bytes@)) {
            (Ok(f), Ok(m)) => {
                &&& f.one_time_key@ == field_bytes(m, 1)
                &&& f.base_key@ == field_bytes(m, 2)
                &&& f.identity_key@ == field_bytes(m, 3)
                &&& f.message@ == field_bytes(m, 4)
            },
            (Err(e), Err(se)) => e == se,
            _ => false,
        },
{
    let ghost s = Schema::PreKey;
    let mut pos: usize = 0;
    let mut one_time_key: Vec<u8> = Vec::new();
    let mut base_key: Vec<u8> = Vec::new();
    let mut identity_key: Vec<u8> = Vec::new();
    let mut message: Vec<u8> = Vec::new();
    let ghost mut acc: Map<int, PbValue> = Map::empty();
    while pos < bytes.len()
        invariant
            s == Schema::PreKey,
            pos <= bytes@.len(),
            spec_parse(s, bytes@) == spec_parse_fields(s, bytes@, pos as int, acc),
            one_time_key@ == field_bytes(acc, 1),
            base_key@ == field_bytes(acc, 2),
            identity_key@ == field_bytes(acc, 3),
            message@ == field_bytes(acc, 4),
        decreases bytes@.len() - pos,
    {
        let ghost pos0 = pos as int;
        let ghost acc0 = acc;
        let (key, p1) = match decode_varint(bytes, pos) {
            Ok(kp) => kp,
            Err(VarintError::Truncated) => {
                proof {
                    assert(spec_parse_fields(s, bytes@, pos0, acc0)
                        == Err::<Map<int, PbValue>, PbError>(PbError::TruncatedTag));
                }
                return Err(PbError::TruncatedTag);
            },
            Err(VarintError::TooLong) => {
                proof {
                    assert(spec_parse_fields(s, bytes@, pos0, acc0)
                        == Err::<Map<int, PbValue>, PbError>(PbError::InvalidVarint));
                }
                return Err(PbError::InvalidVarint);
            },
        };
        let field = key / 8;
        let wire = key % 8;
        if field == 0 {
            proof {
                assert(spec_parse_fields(s, bytes@, pos0, acc0)
                    == Err::<Map<int, PbValue>, PbError>(PbError::InvalidFieldNumber));
            }
            return Err(PbError::InvalidFieldNumber);
        }
        if 1 <= field && field <= 4 && wire != 2 {
            proof {
                assert(spec_parse_fields(s, bytes@, pos0, acc0)
                    == Err::<Map<int, PbValue>, PbError>(PbError::InvalidWireType));
            }
            return Err(PbError::InvalidWireType);
        }
        if wire == 0 {
            match decode_varint(bytes, p1) {
                Ok(vp) => {
                    pos = vp.1;
                },
                Err(VarintError::Truncated) => {
                    proof {
                        assert(spec_parse_fields(s, bytes@, pos0, acc0)
                            == Err::<Map<int, PbValue>, PbError>(PbError::TruncatedValue));
                    }
                    return Err(PbError::TruncatedValue);
                },
                Err(VarintError::TooLong) => {
                    proof {
                        assert(spec_parse_fields(s, bytes@, pos0, acc0)
                            == Err::<Map<int, PbValue>, PbError>(PbError::InvalidVarint));
                    }
                    return Err(PbError::InvalidVarint);
                },
            }
        } else if wire == 2 {
            let (len, p2) = match decode_varint(bytes, p1) {
                Ok(lp) => lp,
                Err(VarintError::Truncated) => {
                    proof {
                        assert(spec_parse_fields(s, bytes@, pos0, acc0)
                            == Err::<Map<int, PbValue>, PbError>(PbError::TruncatedLength));
                    }
                    return Err(PbError::TruncatedLength);
                },
                Err(VarintError::TooLong) => {
                    proof {
                        assert(spec_parse_fields(s, bytes@, pos0, acc0)
                            == Err::<Map<int, PbValue>, PbError>(PbError::InvalidVarint));
                    }
                    return Err(PbError::InvalidVarint);
                },
            };
            if len > (bytes.len() - p2) as u64 {
                proof {
                    assert(spec_parse_fields(s, bytes@, pos0, acc0)
                        == Err::<Map<int, PbValue>, PbError>(PbError::TruncatedValue));
                }
                return Err(PbError::TruncatedValue);
            }
            let end = p2 + (len as usize);
            if field == 1 {
                one_time_key = vstd::slice::slice_to_vec(
                    vstd::slice::slice_subrange(bytes, p2, end),
                );
                proof {
                    acc = acc.insert(1, PbValue::Bytes(bytes@.subrange(p2 as int, end as int)));
                }
            } else if field == 2 {
                base_key = vstd::slice::slice_to_vec(vstd::slice::slice_subrange(bytes, p2, end));
                proof {
                    acc = acc.insert(2, PbValue::Bytes(bytes@.subrange(p2 as int, end as int)));
                }
            } else if field == 3 {
                identity_key = vstd::slice::slice_to_vec(
                    vstd::slice::slice_subrange(bytes, p2, end),
                );
                proof {
                    acc = acc.insert(3, PbValue::Bytes(bytes@.subrange(p2 as int, end as int)));
                }
            } else if field == 4 {
                message = vstd::slice::slice_to_vec(vstd::slice::slice_subrange(bytes, p2, end));
                proof {
                    acc = acc.insert(4, PbValue::Bytes(bytes@.subrange(p2 as int, end as int)));
                }
            }
            pos = end;
        } else if wire == 1 {
            if bytes.len() - p1 < 8 {
                proof {
                    assert(spec_parse_fields(s, bytes@, pos0, acc0)
                        == Err::<Map<int, PbValue>, PbError>(PbError::TruncatedValue));
                }
                return Err(PbError::TruncatedValue);
            }
            pos = p1 + 8;
        } else if wire == 5 {
            if bytes.len() - p1 < 4 {
                proof {
                    assert(spec_parse_fields(s, bytes@, pos0, acc0)
                        == Err::<Map<int, PbValue>, PbError>(PbError::TruncatedValue));
                }
                return Err(PbError::TruncatedValue);
            }
            pos = p1 + 4;
        } else {
            proof {
                assert(spec_parse_fields(s, bytes@, pos0, acc0)
                    == Err::<Map<int, PbValue>, PbError>(PbError::InvalidWireType));
            }
            return Err(PbError::InvalidWireType);
        }
        proof {
            assert(spec_parse_fields(s, bytes@, pos0, acc0)
                == spec_parse_fields(s, bytes@, pos as int, acc));
        }
    }
    Ok(PreKeyFields { one_time_key, base_key, identity_key, message })
}

/// The encoding of one byte field: its single tag byte, the varint length
/// prefix and the data, or nothing where the data is empty (a field holding
/// its default value is left out).
pub open spec fn spec_bytes_field(field: int, data: Seq<u8>) -> Seq<u8> {
    if data.len() == 0 {
        Seq::empty()
    } else {
        seq![(8 * field + 2) as u8] + spec_varint(data.len() as int) + data
    }
}

/// Append the encoding of one byte field to `out`.
pub fn encode_bytes_field(out: &mut Vec<u8>, field: u8, data: &[u8])
    requires
        1 <= field <= 15,
    ensures
        final(out)@ == old(out)@ + spec_bytes_field(field as int, data@),
{
    if data.len() == 0 {
        proof {
            assert(out@ =~= out@ + spec_bytes_field(field as int, data@));
        }
        return;
    }
    out.push(8 * field + 2);
    let mut len_prefix = encode_varint(data.len() as u64);
    out.append(&mut len_prefix);
    push_bytes(out, data);
    proof {
        assert(out@ =~= old(out)@ + spec_bytes_field(field as int, data@));
    }
}

} // verus!
