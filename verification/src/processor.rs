//! The entry of an invocation: the operation tag picks what runs.
use vstd::prelude::*;
use pinocchio::{AccountView, Address};
use crate::deposit::Deposit;
use crate::error::AccessError;

verus! {

/// `pinocchio::Address`, the runtime's name for a program or an account.
/// Nothing is claimed of what it holds.
#[verifier::external_type_specification]
#[verifier::external_body]
pub struct ExAddress(pinocchio::Address);

/// Routes an invocation by the first byte of its instruction buffer. The
/// deposit's tag leads to a deposit built from the buffer and the accounts;
/// an empty buffer or any other tag names no operation.
pub fn process<'a>(
    _program_id: &Address,
    accounts: &'a [AccountView],
    instruction_data: &'a [u8],
) -> (r: Result<Deposit<'a>, AccessError>)
    ensures
        instruction_data@.len() == 0 || instruction_data@[0] != Deposit::DISCRIMINATOR ==> r is Err
            && r->Err_0 == AccessError::UnknownOperation,
        instruction_data@.len() > 0 && instruction_data@[0] == Deposit::DISCRIMINATOR
            ==> Deposit::built_from(r, instruction_data@, accounts@),
{
    if instruction_data.len() == 0 {
        return Err(AccessError::UnknownOperation);
    }
    if instruction_data[0] != Deposit::DISCRIMINATOR {
        return Err(AccessError::UnknownOperation);
    }
    Deposit::try_from(instruction_data, accounts)
}

} // verus!
