//! The fixed-layout record held in the data account, and the two ways of
//! reading it: into an owned copy, or through a view borrowed from the bytes.
//!
//! | field     | type        | offset | bytes |
//! |-----------|-------------|--------|-------|
//! | counter   | `u64`       | 0      | 8     |
//! | timestamp | `i64`       | 8      | 8     |
//! | values    | `[u64; 100]`| 16     | 800   |
//! | flags     | `[u8; 200]` | 816    | 200   |
//! | data_blob | `[u8; 1984]`| 1016   | 1984  |
//!
//! Integers are little-endian and nothing stands between the fields.
use vstd::prelude::*;
use vstd::slice::slice_subrange;
use crate::endian::{le_u64_at, read_u64_at};
use crate::error::AccessError;

verus! {

/// Offset of `counter`.
pub const COUNTER_OFFSET: usize = 0;

/// Offset of `timestamp`.
pub const TIMESTAMP_OFFSET: usize = 8;

/// Offset of the first entry of `values`.
pub const VALUES_OFFSET: usize = 16;

/// Number of entries of `values`.
pub const VALUES_COUNT: usize = 100;

/// Offset of the first entry of `flags`.
pub const FLAGS_OFFSET: usize = 816;

/// Number of entries of `flags`.
pub const FLAGS_COUNT: usize = 200;

/// Offset of the first byte of `data_blob`.
pub const BLOB_OFFSET: usize = 1016;

/// Number of bytes of `data_blob`.
pub const BLOB_LEN: usize = 1984;

/// Length in bytes of the whole record: the sum of its fields.
pub const RECORD_SIZE: usize = 3000;

/// Alignment that the record asks of the address its bytes start at.
pub const RECORD_ALIGN: usize = 8;

/// The signed integer with the same sixty-four bits (two's complement).
pub open spec fn as_signed(raw: u64) -> i64 {
    if raw < 0x8000_0000_0000_0000 {
        raw as i64
    } else {
        (raw - 0x1_0000_0000_0000_0000) as i64
    }
}

/// `counter` as the record's bytes hold it.
pub open spec fn record_counter(bytes: Seq<u8>) -> u64 {
    le_u64_at(bytes, COUNTER_OFFSET as int)
}

/// `timestamp` as the record's bytes hold it.
pub open spec fn record_timestamp(bytes: Seq<u8>) -> i64 {
    as_signed(le_u64_at(bytes, TIMESTAMP_OFFSET as int))
}

/// Entry `i` of `values` as the record's bytes hold it.
pub open spec fn record_value(bytes: Seq<u8>, i: int) -> u64 {
    le_u64_at(bytes, VALUES_OFFSET + 8 * i)
}

/// All of `values` as the record's bytes hold them.
pub open spec fn record_values(bytes: Seq<u8>) -> Seq<u64> {
    Seq::new(VALUES_COUNT as nat, |i: int| record_value(bytes, i))
}

/// All of `flags` as the record's bytes hold them.
pub open spec fn record_flags(bytes: Seq<u8>) -> Seq<u8> {
    bytes.subrange(FLAGS_OFFSET as int, FLAGS_OFFSET + FLAGS_COUNT)
}

/// All of `data_blob` as the record's bytes hold it.
pub open spec fn record_blob(bytes: Seq<u8>) -> Seq<u8> {
    bytes.subrange(BLOB_OFFSET as int, BLOB_OFFSET + BLOB_LEN)
}

/// Reads the signed integer with the bits of `raw`.
fn signed_from_bits(raw: u64) -> (out: i64)
    ensures
        out == as_signed(raw),
{
    if raw < 0x8000_0000_0000_0000 {
        raw as i64
    } else {
        let low: u64 = raw - 0x8000_0000_0000_0000;
        (low as i64) + i64::MIN
    }
}

/// An owned copy of the record.
pub struct UserData {
    pub counter: u64,
    pub timestamp: i64,
    pub values: [u64; 100],
    pub flags: [u8; 200],
    pub data_blob: [u8; 1984],
}

impl UserData {
    /// Length in bytes of the record.
    pub const SIZE: usize = RECORD_SIZE;

    /// Every field holds what `bytes`, a buffer of the record's size, holds
    /// at the field's place.
    pub open spec fn decodes(&self, bytes: Seq<u8>) -> bool {
        &&& bytes.len() == RECORD_SIZE
        &&& self.counter == record_counter(bytes)
        &&& self.timestamp == record_timestamp(bytes)
        &&& self.values@ == record_values(bytes)
        &&& self.flags@ == record_flags(bytes)
        &&& self.data_blob@ == record_blob(bytes)
    }

    /// Owned-copy decode: walks the buffer field by field and copies each
    /// into a new record. The buffer must have exactly the record's size.
    /// The record borrows nothing from the buffer.
    pub fn from_bytes_manual(data: &[u8]) -> (r: Result<UserData, AccessError>)
        ensures
            data@.len() != RECORD_SIZE ==> r is Err && r->Err_0 == AccessError::RecordSizeMismatch,
            data@.len() == RECORD_SIZE ==> r is Ok && r->Ok_0.decodes(data@),
    {
        if data.len() != RECORD_SIZE {
            return Err(AccessError::RecordSizeMismatch);
        }
        let counter: u64 = read_u64_at(data, COUNTER_OFFSET);
        let timestamp: i64 = signed_from_bits(read_u64_at(data, TIMESTAMP_OFFSET));

        let mut values = [0u64;100];
        let mut i: usize = 0;
        while i < VALUES_COUNT
            invariant
                data@.len() == RECORD_SIZE,
                i <= VALUES_COUNT,
                forall|k: int| 0 <= k < i ==> values@[k] == record_value(data@, k),
            decreases VALUES_COUNT - i,
        {
            let entry: u64 = read_u64_at(data, VALUES_OFFSET + i * 8);
            values[i] = entry;
            i += 1;
        }

        let mut flags = [0u8;200];
        let mut j: usize = 0;
        while j < FLAGS_COUNT
            invariant
                data@.len() == RECORD_SIZE,
                j <= FLAGS_COUNT,
                forall|k: int| 0 <= k < j ==> flags@[k] == data@[FLAGS_OFFSET + k],
            decreases FLAGS_COUNT - j,
        {
            flags[j] = data[FLAGS_OFFSET + j];
            j += 1;
        }

        let mut data_blob = [0u8;1984];
        let mut n: usize = 0;
        while n < BLOB_LEN
            invariant
                data@.len() == RECORD_SIZE,
                n <= BLOB_LEN,
                forall|k: int| 0 <= k < n ==> data_blob@[k] == data@[BLOB_OFFSET + k],
            decreases BLOB_LEN - n,
        {
            data_blob[n] = data[BLOB_OFFSET + n];
            n += 1;
        }

        proof {
            assert(values@ =~= record_values(data@));
            assert(flags@ =~= record_flags(data@));
            assert(data_blob@ =~= record_blob(data@));
        }
        Ok(UserData { counter, timestamp, values, flags, data_blob })
    }
}

/// A read-only view of the record, borrowed from the bytes that hold it.
/// Nothing is copied: each accessor reads the field at its place. The borrow
/// keeps the bytes alive and unchanged for as long as the view lives.
pub struct UserDataView<'a> {
    bytes: &'a [u8],
}

impl<'a> View for UserDataView<'a> {
    type V = Seq<u8>;

    /// The bytes that the view reads.
    closed spec fn view(&self) -> Seq<u8> {
        self.bytes@
    }
}

impl<'a> UserDataView<'a> {
    #[verifier::type_invariant]
    spec fn sized(&self) -> bool {
        self.bytes@.len() == RECORD_SIZE
    }

    /// The view of `data`, taken to start at `address`. The buffer must have
    /// exactly the record's size and `address` must be a multiple of the
    /// record's alignment; one error stands for both.
    pub fn at_address(data: &'a [u8], address: usize) -> (r: Result<UserDataView<'a>, AccessError>)
        ensures
            data@.len() == RECORD_SIZE && address % RECORD_ALIGN == 0 ==> r is Ok && r->Ok_0@
                == data@,
            data@.len() != RECORD_SIZE || address % RECORD_ALIGN != 0 ==> r is Err && r->Err_0
                == AccessError::RecordSizeMismatch,
    {
        if data.len() != RECORD_SIZE {
            return Err(AccessError::RecordSizeMismatch);
        }
        if address % RECORD_ALIGN != 0 {
            return Err(AccessError::RecordSizeMismatch);
        }
        Ok(UserDataView { bytes: data })
    }

    /// The bytes under the view.
    pub fn as_bytes(&self) -> (out: &'a [u8])
        ensures
            out@ == self@,
            out@.len() == RECORD_SIZE,
    {
        proof {
            use_type_invariant(self);
        }
        self.bytes
    }

    /// `counter`.
    pub fn counter(&self) -> (out: u64)
        ensures
            out == record_counter(self@),
    {
        proof {
            use_type_invariant(self);
        }
        read_u64_at(self.bytes, COUNTER_OFFSET)
    }

    /// `timestamp`.
    pub fn timestamp(&self) -> (out: i64)
        ensures
            out == record_timestamp(self@),
    {
        proof {
            use_type_invariant(self);
        }
        signed_from_bits(read_u64_at(self.bytes, TIMESTAMP_OFFSET))
    }

    /// Entry `index` of `values`.
    pub fn value(&self, index: usize) -> (out: u64)
        requires
            index < VALUES_COUNT,
        ensures
            out == record_values(self@)[index as int],
    {
        proof {
            use_type_invariant(self);
        }
        read_u64_at(self.bytes, VALUES_OFFSET + index * 8)
    }

    /// `flags`, as the part of the buffer that holds them.
    pub fn flags(&self) -> (out: &'a [u8])
        ensures
            out@ == record_flags(self@),
            out@.len() == FLAGS_COUNT,
    {
        proof {
            use_type_invariant(self);
        }
        slice_subrange(self.bytes, FLAGS_OFFSET, FLAGS_OFFSET + FLAGS_COUNT)
    }

    /// `data_blob`, as the part of the buffer that holds it.
    pub fn data_blob(&self) -> (out: &'a [u8])
        ensures
            out@ == record_blob(self@),
            out@.len() == BLOB_LEN,
    {
        proof {
            use_type_invariant(self);
        }
        slice_subrange(self.bytes, BLOB_OFFSET, BLOB_OFFSET + BLOB_LEN)
    }
}

/// The address at which `data` starts, from `<[u8]>::as_ptr` of std. Nothing
/// is claimed of it: where a buffer lies is for the machine to say.
#[verifier::external_body]
fn start_address(data: &[u8]) -> usize {
    data.as_ptr() as usize
}

impl UserData {
    /// Zero-copy decode: a view of the record straight over `data`. The
    /// buffer must have exactly the record's size and must start at an
    /// address that is a multiple of the record's alignment. Whether it does
    /// is not for the caller to see, so of a buffer of the right size either
    /// outcome is possible: `at_address` says which comes for which address.
    pub fn from_bytes_zerocopy<'a>(data: &'a [u8]) -> (r: Result<UserDataView<'a>, AccessError>)
        ensures
            data@.len() != RECORD_SIZE ==> r is Err,
            r is Err ==> r->Err_0 == AccessError::RecordSizeMismatch,
            r is Ok ==> data@.len() == RECORD_SIZE && r->Ok_0@ == data@,
    {
        let address: usize = start_address(data);
        UserDataView::at_address(data, address)
    }
}

/// For a buffer of the record's size, the owned copy and the view hold the
/// same value in every field: `counter`, `timestamp`, each entry of `values`,
/// each of `flags` and each byte of `data_blob`.
pub proof fn lemma_strategies_agree(bytes: Seq<u8>, owned: UserData, view: UserDataView)
    requires
        owned.decodes(bytes),
        view@ == bytes,
    ensures
        owned.counter == record_counter(view@),
        owned.timestamp == record_timestamp(view@),
        owned.values@ == record_values(view@),
        owned.flags@ == record_flags(view@),
        owned.data_blob@ == record_blob(view@),
        forall|i: int| 0 <= i < VALUES_COUNT ==> owned.values[i] == record_values(view@)[i],
        forall|i: int| 0 <= i < FLAGS_COUNT ==> owned.flags[i] == view@[FLAGS_OFFSET + i],
        forall|i: int| 0 <= i < BLOB_LEN ==> owned.data_blob[i] == view@[BLOB_OFFSET + i],
{
}

/// The owned copy is a function of the bytes it was decoded from, as they
/// stood then: two records decoded from equal bytes are equal, whatever
/// became of either buffer afterwards.
pub proof fn lemma_owned_copy_determined(bytes: Seq<u8>, first: UserData, second: UserData)
    requires
        first.decodes(bytes),
        second.decodes(bytes),
    ensures
        first == second,
{
    assert(first.values =~= second.values);
    assert(first.flags =~= second.flags);
    assert(first.data_blob =~= second.data_blob);
}

} // verus!
