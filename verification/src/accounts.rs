//! Binding the accounts that the runtime hands in to the roles they play.
use vstd::prelude::*;
use pinocchio::AccountView;
use crate::error::AccessError;

verus! {

/// `pinocchio::AccountView`, the runtime's handle to one account. Nothing is
/// claimed of what it holds: the library only carries references to it.
#[verifier::external_type_specification]
#[verifier::external_body]
pub struct ExAccountView(pinocchio::AccountView);

/// Number of accounts that the deposit operation takes: one per role.
pub const ROLE_COUNT: usize = 4;

/// Takes a list of exactly four items apart, in its order. This is all that
/// binding does, whatever the items are.
pub fn bind_positions<'a, T>(list: &'a [T]) -> (r: Result<(&'a T, &'a T, &'a T, &'a T), AccessError>)
    ensures
        list@.len() != ROLE_COUNT ==> r is Err && r->Err_0 == AccessError::AccountArityMismatch,
        list@.len() == ROLE_COUNT ==> r is Ok && *r->Ok_0.0 == list@[0] && *r->Ok_0.1 == list@[1]
            && *r->Ok_0.2 == list@[2] && *r->Ok_0.3 == list@[3],
{
    if list.len() != ROLE_COUNT {
        return Err(AccessError::AccountArityMismatch);
    }
    Ok((&list[0], &list[1], &list[2], &list[3]))
}

/// The accounts of a deposit, each under the role that its position gives it.
pub struct DepositAccounts<'a> {
    pub authority: &'a AccountView,
    pub recipient: &'a AccountView,
    /// The account whose bytes are the fixed-layout record.
    pub data_account: &'a AccountView,
    /// Present by position only; nothing reads it.
    pub system_program: &'a AccountView,
}

impl<'a> DepositAccounts<'a> {
    /// The roles are those of `accounts`, a list of four, in its order:
    /// authority, recipient, data account, system program.
    pub open spec fn bound_to(&self, accounts: Seq<AccountView>) -> bool {
        &&& accounts.len() == ROLE_COUNT
        &&& *self.authority == accounts[0]
        &&& *self.recipient == accounts[1]
        &&& *self.data_account == accounts[2]
        &&& *self.system_program == accounts[3]
    }

    /// Binds a list of exactly four accounts to the roles, by position.
    /// Nothing is asked of the accounts themselves: not who owns or signed
    /// them, nor how many bytes they hold.
    pub fn try_from(accounts: &'a [AccountView]) -> (r: Result<DepositAccounts<'a>, AccessError>)
        ensures
            accounts@.len() != ROLE_COUNT ==> r is Err && r->Err_0
                == AccessError::AccountArityMismatch,
            accounts@.len() == ROLE_COUNT ==> r is Ok && r->Ok_0.bound_to(accounts@),
    {
        match bind_positions(accounts) {
            Ok((authority, recipient, data_account, system_program)) => Ok(
                DepositAccounts { authority, recipient, data_account, system_program },
            ),
            Err(e) => Err(e),
        }
    }
}

} // verus!
