//! The argument payload of the deposit operation.
use vstd::prelude::*;
use crate::endian::{
    le_bytes, le_u64_at, lemma_le_bytes_decode, lemma_le_u64_encode, push_u64, read_u64_at,
};
use crate::error::AccessError;

verus! {

/// Length in bytes of the argument payload: two 64-bit integers.
pub const PAYLOAD_LEN: usize = 16;

/// The two fields of the argument payload.
#[derive(Clone, Copy, Debug, PartialEq, Eq, Structural)]
pub struct InstructionData {
    pub amount: u64,
    pub multiplier: u64,
}

/// The fields that a payload of sixteen bytes holds: `amount` in the first
/// eight bytes, `multiplier` in the last eight, both little-endian.
pub open spec fn payload_fields(payload: Seq<u8>) -> InstructionData
    recommends
        payload.len() == PAYLOAD_LEN,
{
    InstructionData {
        amount: le_u64_at(payload, 0),
        multiplier: le_u64_at(payload, 8),
    }
}

impl InstructionData {
    /// The sixteen bytes that carry these fields.
    pub open spec fn spec_to_bytes(self) -> Seq<u8> {
        le_bytes(self.amount) + le_bytes(self.multiplier)
    }

    /// Decodes a payload. Only a payload of exactly sixteen bytes is taken.
    pub fn try_from(data: &[u8]) -> (r: Result<InstructionData, AccessError>)
        ensures
            data@.len() != PAYLOAD_LEN ==> r == Err::<InstructionData, AccessError>(
                AccessError::MalformedInstructionData,
            ),
            data@.len() == PAYLOAD_LEN ==> r == Ok::<InstructionData, AccessError>(
                payload_fields(data@),
            ),
            r is Ok ==> r->Ok_0.spec_to_bytes() == data@,
    {
        if data.len() != PAYLOAD_LEN {
            return Err(AccessError::MalformedInstructionData);
        }
        let amount: u64 = read_u64_at(data, 0);
        let multiplier: u64 = read_u64_at(data, 8);
        proof {
            lemma_payload_round_trip(data@);
        }
        Ok(InstructionData { amount, multiplier })
    }

    /// Encodes the fields as sixteen little-endian bytes.
    pub fn to_bytes(&self) -> (out: Vec<u8>)
        ensures
            out@ == self.spec_to_bytes(),
            out@.len() == PAYLOAD_LEN,
            payload_fields(out@) == *self,
    {
        let mut out: Vec<u8> = Vec::new();
        push_u64(&mut out, self.amount);
        push_u64(&mut out, self.multiplier);
        proof {
            lemma_fields_round_trip(*self);
        }
        out
    }
}

/// Decoding a payload of sixteen bytes and encoding the fields again gives
/// the payload back.
pub proof fn lemma_payload_round_trip(payload: Seq<u8>)
    requires
        payload.len() == PAYLOAD_LEN,
    ensures
        payload_fields(payload).spec_to_bytes() == payload,
{
    let low = payload.subrange(0, 8);
    let high = payload.subrange(8, 16);
    lemma_le_u64_encode(low);
    lemma_le_u64_encode(high);
    assert(low + high =~= payload);
}

/// Encoding two fields gives sixteen bytes, and decoding these gives the
/// fields back.
pub proof fn lemma_fields_round_trip(fields: InstructionData)
    ensures
        fields.spec_to_bytes().len() == PAYLOAD_LEN,
        payload_fields(fields.spec_to_bytes()) == fields,
{
    let low = le_bytes(fields.amount);
    let high = le_bytes(fields.multiplier);
    lemma_le_bytes_decode(fields.amount);
    lemma_le_bytes_decode(fields.multiplier);
    assert((low + high).subrange(0, 8) =~= low);
    assert((low + high).subrange(8, 16) =~= high);
}

} // verus!
