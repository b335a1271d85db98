//! The numbers derived from a decoded record and the instruction's fields.
//! Sums and the product wrap at sixty-four bits; nothing here fails.
use vstd::prelude::*;
use crate::instruction::InstructionData;
use crate::record::{
    UserData, UserDataView, record_values, record_flags, record_blob, record_counter,
    VALUES_COUNT,
};

verus! {

/// How many leading bytes of the blob are summed, at most.
pub const BLOB_SUM_LIMIT: usize = 1000;

/// What the pipeline hands out.
#[derive(Clone, Copy, Debug, PartialEq, Eq, Structural)]
pub struct DerivedResults {
    pub total: u64,
    pub active_flags: u32,
    pub blob_sum: u64,
    pub counter: u64,
}

/// The sum of the entries, as an integer without bound.
pub open spec fn sum_of(values: Seq<u64>) -> int
    decreases values.len(),
{
    if values.len() == 0 {
        0
    } else {
        sum_of(values.drop_last()) + values.last()
    }
}

/// The sum of the bytes, as an integer without bound.
pub open spec fn byte_sum(bytes: Seq<u8>) -> int
    decreases bytes.len(),
{
    if bytes.len() == 0 {
        0
    } else {
        byte_sum(bytes.drop_last()) + bytes.last()
    }
}

/// A flag is active when it is greater than zero.
pub open spec fn is_active(flag: u8) -> bool {
    flag > 0
}

/// How many of the flags are active.
pub open spec fn count_positive(flags: Seq<u8>) -> nat {
    flags.filter(|flag: u8| is_active(flag)).len()
}

/// The sum of the entries, wrapped to sixty-four bits.
pub open spec fn wrapping_sum(values: Seq<u64>) -> u64 {
    (sum_of(values) % 0x1_0000_0000_0000_0000) as u64
}

/// Sum, then product, then addition, each wrapped to sixty-four bits:
/// `((S * multiplier) mod 2^64 + amount) mod 2^64`, `S` the wrapped sum.
pub open spec fn spec_total(values: Seq<u64>, multiplier: u64, amount: u64) -> u64 {
    let product = (wrapping_sum(values) as nat * multiplier as nat) % 0x1_0000_0000_0000_0000;
    ((product + amount) % 0x1_0000_0000_0000_0000) as u64
}

/// The blob's leading bytes that are summed: the first thousand, or all of
/// them where there are fewer.
pub open spec fn summed_prefix(blob: Seq<u8>) -> Seq<u8> {
    if blob.len() <= BLOB_SUM_LIMIT {
        blob
    } else {
        blob.take(BLOB_SUM_LIMIT as int)
    }
}

/// The results for a record with these fields and an instruction with
/// these.
pub open spec fn spec_results(
    counter: u64,
    values: Seq<u64>,
    flags: Seq<u8>,
    blob: Seq<u8>,
    instruction: InstructionData,
) -> DerivedResults {
    DerivedResults {
        total: spec_total(values, instruction.multiplier, instruction.amount),
        active_flags: count_positive(flags) as u32,
        blob_sum: byte_sum(summed_prefix(blob)) as u64,
        counter,
    }
}

/// The results for the record that `bytes` hold.
pub open spec fn spec_results_of_bytes(bytes: Seq<u8>, instruction: InstructionData) -> DerivedResults {
    spec_results(
        record_counter(bytes),
        record_values(bytes),
        record_flags(bytes),
        record_blob(bytes),
        instruction,
    )
}

proof fn lemma_sum_step(values: Seq<u64>, i: int)
    requires
        0 <= i < values.len(),
    ensures
        sum_of(values.take(i + 1)) == sum_of(values.take(i)) + values[i],
{
    assert(values.take(i + 1).drop_last() =~= values.take(i));
}

proof fn lemma_byte_sum_step(bytes: Seq<u8>, i: int)
    requires
        0 <= i < bytes.len(),
    ensures
        byte_sum(bytes.take(i + 1)) == byte_sum(bytes.take(i)) + bytes[i],
{
    assert(bytes.take(i + 1).drop_last() =~= bytes.take(i));
}

proof fn lemma_count_step(flags: Seq<u8>, i: int)
    requires
        0 <= i < flags.len(),
    ensures
        count_positive(flags.take(i + 1)) == count_positive(flags.take(i)) + if flags[i] > 0 {
            1int
        } else {
            0int
        },
{
    assert(flags.take(i + 1) =~= flags.take(i).push(flags[i]));
    flags.take(i).lemma_filter_len_push(|flag: u8| is_active(flag), flags[i]);
}

/// At most as many flags are active as there are flags.
pub proof fn lemma_count_bounds(flags: Seq<u8>)
    ensures
        count_positive(flags) <= flags.len(),
{
    flags.lemma_filter_len(|flag: u8| is_active(flag));
}

/// Sum of the entries, then times `multiplier`, then plus `amount`, each
/// step wrapping.
pub fn total_of(values: &[u64], multiplier: u64, amount: u64) -> (out: u64)
    ensures
        out == spec_total(values@, multiplier, amount),
{
    let mut sum: u64 = 0;
    let mut i: usize = 0;
    while i < values.len()
        invariant
            i <= values@.len(),
            sum == wrapping_sum(values@.take(i as int)),
        decreases values@.len() - i,
    {
        proof {
            lemma_sum_step(values@, i as int);
        }
        sum = sum.wrapping_add(values[i]);
        i += 1;
    }
    assert(values@.take(i as int) =~= values@);
    sum.wrapping_mul(multiplier).wrapping_add(amount)
}

/// Counts the flags that are greater than zero.
pub fn active_flags_of(flags: &[u8]) -> (out: u32)
    requires
        flags@.len() <= u32::MAX,
    ensures
        out == count_positive(flags@),
{
    let mut count: u32 = 0;
    let mut i: usize = 0;
    proof {
        lemma_count_bounds(flags@.take(0));
    }
    while i < flags.len()
        invariant
            i <= flags@.len(),
            flags@.len() <= u32::MAX,
            count == count_positive(flags@.take(i as int)),
            count <= i,
        decreases flags@.len() - i,
    {
        proof {
            lemma_count_step(flags@, i as int);
        }
        if flags[i] > 0 {
            count += 1;
        }
        i += 1;
    }
    assert(flags@.take(i as int) =~= flags@);
    count
}

/// Sums the first thousand bytes of the blob, or all of a shorter one, each
/// widened to sixty-four bits. So few bytes never reach the point of
/// wrapping.
pub fn blob_sum_of(blob: &[u8]) -> (out: u64)
    ensures
        out == byte_sum(summed_prefix(blob@)),
        out <= 255 * BLOB_SUM_LIMIT,
{
    let end: usize = if blob.len() <= BLOB_SUM_LIMIT {
        blob.len()
    } else {
        BLOB_SUM_LIMIT
    };
    let mut sum: u64 = 0;
    let mut i: usize = 0;
    while i < end
        invariant
            i <= end,
            end <= blob@.len(),
            end <= BLOB_SUM_LIMIT,
            sum == byte_sum(blob@.take(i as int)),
            sum <= 255 * i,
        decreases end - i,
    {
        proof {
            lemma_byte_sum_step(blob@, i as int);
        }
        sum = sum.wrapping_add(blob[i] as u64);
        i += 1;
    }
    assert(blob@.take(blob@.len() as int) =~= blob@);
    sum
}

/// The pipeline gives the same results on an owned copy decoded from a
/// buffer as on a view of that buffer.
pub proof fn lemma_pipelines_agree(bytes: Seq<u8>, owned: UserData, instruction: InstructionData)
    requires
        owned.decodes(bytes),
    ensures
        spec_results(
            owned.counter,
            owned.values@,
            owned.flags@,
            owned.data_blob@,
            instruction,
        ) == spec_results_of_bytes(bytes, instruction),
{
}

/// The pipeline on an owned copy of the record.
pub fn compute(record: &UserData, instruction: &InstructionData) -> (out: DerivedResults)
    ensures
        out == spec_results(
            record.counter,
            record.values@,
            record.flags@,
            record.data_blob@,
            *instruction,
        ),
{
    let total: u64 = total_of(record.values.as_slice(), instruction.multiplier, instruction.amount);
    let active_flags: u32 = active_flags_of(record.flags.as_slice());
    let blob_sum: u64 = blob_sum_of(record.data_blob.as_slice());
    DerivedResults { total, active_flags, blob_sum, counter: record.counter }
}

/// The pipeline on a borrowed view of the record: each entry of `values` is
/// read from the bytes as it is added, nothing is copied.
pub fn compute_view(view: &UserDataView, instruction: &InstructionData) -> (out: DerivedResults)
    ensures
        out == spec_results_of_bytes(view@, *instruction),
{
    let ghost values = record_values(view@);
    let mut sum: u64 = 0;
    let mut i: usize = 0;
    while i < VALUES_COUNT
        invariant
            i <= VALUES_COUNT,
            values == record_values(view@),
            sum == wrapping_sum(values.take(i as int)),
        decreases VALUES_COUNT - i,
    {
        proof {
            lemma_sum_step(values, i as int);
        }
        sum = sum.wrapping_add(view.value(i));
        i += 1;
    }
    assert(values.take(i as int) =~= values);
    let total: u64 = sum.wrapping_mul(instruction.multiplier).wrapping_add(instruction.amount);
    let active_flags: u32 = active_flags_of(view.flags());
    let blob_sum: u64 = blob_sum_of(view.data_blob());
    DerivedResults { total, active_flags, blob_sum, counter: view.counter() }
}

} // verus!
