//! The deposit operation: its accounts and fields, validated, and what it
//! computes from the data account's bytes.
use vstd::prelude::*;
use vstd::slice::slice_subrange;
use pinocchio::AccountView;
use crate::accounts::{DepositAccounts, ROLE_COUNT};
use crate::compute::{DerivedResults, compute_view, spec_results_of_bytes};
use crate::error::AccessError;
use crate::instruction::{InstructionData, PAYLOAD_LEN, payload_fields};
use crate::record::{UserData, RECORD_SIZE};

verus! {

/// A deposit that is ready to run: its accounts bound, its fields decoded.
pub struct Deposit<'a> {
    pub accounts: DepositAccounts<'a>,
    pub instruction_data: InstructionData,
}

/// What an instruction buffer holds after its tag: the argument payload.
/// An empty buffer has an empty payload.
pub open spec fn payload_of(data: Seq<u8>) -> Seq<u8> {
    if data.len() == 0 {
        data
    } else {
        data.skip(1)
    }
}

impl<'a> Deposit<'a> {
    /// The operation tag of a deposit.
    pub const DISCRIMINATOR: u8 = 0;

    /// `r` is what building a deposit from the instruction buffer `data` and
    /// the list `accounts` gives. The accounts are bound first, so a list of
    /// the wrong length is reported whatever the buffer holds; then the
    /// payload behind the tag is decoded.
    pub open spec fn built_from(
        r: Result<Deposit<'a>, AccessError>,
        data: Seq<u8>,
        accounts: Seq<AccountView>,
    ) -> bool {
        if accounts.len() != ROLE_COUNT {
            r is Err && r->Err_0 == AccessError::AccountArityMismatch
        } else if payload_of(data).len() != PAYLOAD_LEN {
            r is Err && r->Err_0 == AccessError::MalformedInstructionData
        } else {
            &&& r is Ok
            &&& r->Ok_0.accounts.bound_to(accounts)
            &&& r->Ok_0.instruction_data == payload_fields(payload_of(data))
        }
    }

    /// Builds a deposit from an instruction buffer, whose first byte is the
    /// tag and is not looked at here, and the list of accounts.
    pub fn try_from(data: &'a [u8], accounts: &'a [AccountView]) -> (r: Result<
        Deposit<'a>,
        AccessError,
    >)
        ensures
            Self::built_from(r, data@, accounts@),
    {
        let accounts = match DepositAccounts::try_from(accounts) {
            Ok(bound) => bound,
            Err(e) => {
                return Err(e);
            },
        };
        let payload: &[u8] = if data.len() == 0 {
            data
        } else {
            slice_subrange(data, 1, data.len())
        };
        let instruction_data = match InstructionData::try_from(payload) {
            Ok(fields) => fields,
            Err(e) => {
                return Err(e);
            },
        };
        Ok(Deposit { accounts, instruction_data })
    }

    /// Runs the deposit on `data`, the bytes of its data account: reads them
    /// through a borrowed view, without a copy, and computes the results.
    /// Bytes of another length than the record's are refused. So are bytes
    /// that start at an address the record cannot lie at; `compute_view`
    /// gives the results for a view once it stands.
    pub fn process(&self, data: &[u8]) -> (r: Result<DerivedResults, AccessError>)
        ensures
            data@.len() != RECORD_SIZE ==> r is Err,
            r is Err ==> r->Err_0 == AccessError::RecordSizeMismatch,
            r is Ok ==> r->Ok_0 == spec_results_of_bytes(data@, self.instruction_data),
    {
        match UserData::from_bytes_zerocopy(data) {
            Ok(view) => Ok(compute_view(&view, &self.instruction_data)),
            Err(e) => Err(e),
        }
    }
}

} // verus!
