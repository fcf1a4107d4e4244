//! The accounts that an instruction names, as the checks see them, and the
//! role checks shared by the operations.
use crate::address::{Address, ProgramIds, ADDRESS_LEN};
use crate::error::StoreError;
use vstd::prelude::*;

verus! {

/// What an account looks like to the checks, with addresses as byte sequences.
pub struct AccountModel {
    pub key: Seq<u8>,
    pub owner: Seq<u8>,
    pub is_signer: bool,
    pub data: Seq<u8>,
}

/// One account of an instruction: its address, the program that owns it,
/// whether it signed the transaction, and its stored bytes.
#[derive(Clone, Debug, PartialEq, Eq)]
pub struct AccountView {
    pub key: Address,
    pub owner: Address,
    pub is_signer: bool,
    pub data: Vec<u8>,
}

impl View for AccountView {
    type V = AccountModel;

    open spec fn view(&self) -> AccountModel {
        AccountModel { key: self.key@, owner: self.owner@, is_signer: self.is_signer, data: self.data@ }
    }
}

pub open spec fn account_wf(m: AccountModel) -> bool {
    m.key.len() == ADDRESS_LEN && m.owner.len() == ADDRESS_LEN
}

/// The models of a list of accounts.
pub open spec fn models(a: Seq<AccountView>) -> Seq<AccountModel> {
    Seq::new(a.len(), |i: int| a[i]@)
}

/// Whether every account of a list has well-formed addresses.
pub open spec fn accounts_wf(a: Seq<AccountModel>) -> bool {
    forall|i: int| 0 <= i < a.len() ==> account_wf(#[trigger] a[i])
}

/// Storage that holds nothing but zero bytes: allocated but never written.
pub open spec fn is_zero(d: Seq<u8>) -> bool {
    forall|i: int| 0 <= i < d.len() ==> d[i] == 0
}

pub fn is_zero_account(data: &[u8]) -> (r: bool)
    ensures
        r == is_zero(data@),
{
    let mut i: usize = 0;
    while i < data.len()
        invariant
            i <= data@.len(),
            forall|j: int| 0 <= j < i ==> data@[j] == 0,
        decreases data@.len() - i,
    {
        if data[i] != 0 {
            return false;
        }
        i = i + 1;
    }
    true
}

/// The key must be the given well-known address.
pub fn check_well_known(account: &AccountView, expected: &Address) -> (r: Result<(), StoreError>)
    ensures
        r == if account.key@ == expected@ {
            Ok::<(), StoreError>(())
        } else {
            Err(StoreError::InvalidWellKnownAddress)
        },
{
    if account.key.same_as(expected) {
        Ok(())
    } else {
        Err(StoreError::InvalidWellKnownAddress)
    }
}

/// The account must have signed the transaction.
pub fn check_signer(account: &AccountView) -> (r: Result<(), StoreError>)
    ensures
        r == if account.is_signer {
            Ok::<(), StoreError>(())
        } else {
            Err(StoreError::SignatureMissing)
        },
{
    if account.is_signer {
        Ok(())
    } else {
        Err(StoreError::SignatureMissing)
    }
}

/// The account must belong to this program and already hold a record.
pub fn check_owned_initialized(account: &AccountView, ids: &ProgramIds) -> (r: Result<
    (),
    StoreError,
>)
    ensures
        r == if account.owner@ != ids.program_id@ {
            Err(StoreError::NotOwnedByProgram)
        } else if is_zero(account.data@) {
            Err(StoreError::NotInitialized)
        } else {
            Ok::<(), StoreError>(())
        },
{
    if !account.owner.same_as(&ids.program_id) {
        Err(StoreError::NotOwnedByProgram)
    } else if is_zero_account(account.data.as_slice()) {
        Err(StoreError::NotInitialized)
    } else {
        Ok(())
    }
}

} // verus!
