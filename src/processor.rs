//! The three operations. Each checks the accounts of an instruction and
//! returns what the host must do: which account to create and the bytes to
//! write. Nothing is returned on a failure, so a failed operation changes
//! nothing.
use crate::accounts::{
    check_owned_initialized, check_signer, check_well_known, is_zero, models, AccountModel,
    AccountView,
};
use crate::address::ProgramIds;
use crate::codec::{
    overwrite, overwrite_prefix, pad_text, padded, MAX_NAME_LENGTH, MAX_SYMBOL_LENGTH, MAX_URI_LENGTH, STORE_DATA_LEN,
};
use crate::error::StoreError;
use crate::records::{
    meta_decodable, meta_decode, meta_encode, store_decode, store_encode, MetaModel, NFTMeta,
    StoreData, StoreModel,
};
use vstd::prelude::*;

verus! {

/// Arguments of CreateStore.
#[derive(Clone, Copy, Debug, PartialEq, Eq, Structural)]
pub struct CreateStoreArgs {
    /// The disambiguation byte of the store's address.
    pub bump: u8,
}

/// Arguments of MintRecord and UpdateRecord; an update reads only `uri`.
#[derive(Clone, Debug, PartialEq, Eq)]
pub struct MintNFTArgs {
    pub name: Vec<u8>,
    pub symbol: Vec<u8>,
    pub uri: Vec<u8>,
    pub bump: u8,
}

/// An account that the host must create: it is funded and allocated with
/// `data.len()` bytes owned by this program at the address of seeds
/// (its own key, `bump`), and then `data` is written to it.
#[derive(Clone, Debug, PartialEq, Eq)]
pub struct NewAccount {
    pub bump: u8,
    pub data: Vec<u8>,
}

/// What a mint asks of the host: the new metadata account, and the store
/// account's data after the count went up.
#[derive(Clone, Debug, PartialEq, Eq)]
pub struct MintEffects {
    pub record: NewAccount,
    pub store_data: Vec<u8>,
}

// ----- CreateStore: payer, store, authority, rent, system -----

/// The first check that a CreateStore instruction fails, if any.
pub open spec fn create_store_error(ids: ProgramIds, a: Seq<AccountModel>) -> Option<StoreError> {
    if a.len() < 5 {
        Some(StoreError::NotEnoughAccounts)
    } else if a[3].key != ids.rent_sysvar@ || a[4].key != ids.system_program@ {
        Some(StoreError::InvalidWellKnownAddress)
    } else if !a[0].is_signer || !a[1].is_signer {
        Some(StoreError::SignatureMissing)
    } else {
        None
    }
}

/// The store record that CreateStore writes: owned by the payer, with the
/// given authority and nothing issued yet.
pub open spec fn new_store(a: Seq<AccountModel>, bump: u8) -> StoreModel {
    StoreModel { owner: a[0].key, authority: a[2].key, nft_amount: 0, bump }
}

/// What CreateStore does: fails, does nothing (the store account already
/// holds storage), or creates the store account with these bytes.
pub open spec fn create_store_outcome(ids: ProgramIds, a: Seq<AccountModel>, bump: u8) -> Result<
    Option<Seq<u8>>,
    StoreError,
> {
    match create_store_error(ids, a) {
        Some(e) => Err(e),
        None => if a[1].data.len() == 0 {
            Ok(Some(store_encode(new_store(a, bump))))
        } else {
            Ok(None)
        },
    }
}

/// Creates the store record at the store account, unless that account
/// already holds storage, in which case it does nothing.
pub fn create_store(ids: &ProgramIds, accounts: &[AccountView], args: CreateStoreArgs) -> (r:
    Result<Option<NewAccount>, StoreError>)
    ensures
        match create_store_outcome(*ids, models(accounts@), args.bump) {
            Err(e) => r == Err::<Option<NewAccount>, StoreError>(e),
            Ok(None) => r == Ok::<Option<NewAccount>, StoreError>(None),
            Ok(Some(d)) => r is Ok && r->Ok_0 is Some && r->Ok_0->Some_0.bump == args.bump
                && r->Ok_0->Some_0.data@ == d,
        },
{
    if accounts.len() < 5 {
        return Err(StoreError::NotEnoughAccounts);
    }
    let payer = &accounts[0];
    let store = &accounts[1];
    let authority = &accounts[2];
    if let Err(e) = check_well_known(&accounts[3], &ids.rent_sysvar) {
        return Err(e);
    }
    if let Err(e) = check_well_known(&accounts[4], &ids.system_program) {
        return Err(e);
    }
    if let Err(e) = check_signer(payer) {
        return Err(e);
    }
    if let Err(e) = check_signer(store) {
        return Err(e);
    }
    if store.data.len() != 0 {
        return Ok(None);
    }
    let record = StoreData { owner: payer.key, authority: authority.key, nft_amount: 0, bump: args.bump };
    Ok(Some(NewAccount { bump: args.bump, data: record.encode() }))
}

// ----- MintRecord: payer, record, authority, store, token mint, token pool,
// token program, rent, system -----

/// The first check that a MintRecord instruction fails, if any.
pub open spec fn mint_error(
    ids: ProgramIds,
    a: Seq<AccountModel>,
    name: Seq<u8>,
    symbol: Seq<u8>,
    uri: Seq<u8>,
) -> Option<StoreError> {
    if a.len() < 9 {
        Some(StoreError::NotEnoughAccounts)
    } else if a[7].key != ids.rent_sysvar@ || a[8].key != ids.system_program@ {
        Some(StoreError::InvalidWellKnownAddress)
    } else if !a[0].is_signer || !a[1].is_signer {
        Some(StoreError::SignatureMissing)
    } else if a[3].owner != ids.program_id@ {
        Some(StoreError::NotOwnedByProgram)
    } else if is_zero(a[3].data) {
        Some(StoreError::NotInitialized)
    } else if a[6].key != ids.token_program@ {
        Some(StoreError::UnexpectedExternalProgram)
    } else if a[1].data.len() != 0 {
        Some(StoreError::AlreadyInitialized)
    } else if name.len() > MAX_NAME_LENGTH || symbol.len() > MAX_SYMBOL_LENGTH || uri.len()
        > MAX_URI_LENGTH {
        Some(StoreError::TextTooLong)
    } else if a[3].data.len() < STORE_DATA_LEN {
        Some(StoreError::MalformedRecord)
    } else if store_decode(a[3].data).nft_amount == u64::MAX {
        Some(StoreError::CounterOverflow)
    } else {
        None
    }
}

/// The store record after a mint: one more item issued.
pub open spec fn minted_store(a: Seq<AccountModel>) -> StoreModel {
    let s = store_decode(a[3].data);
    StoreModel { nft_amount: (s.nft_amount + 1) as u64, ..s }
}

/// The metadata record that a mint writes.
pub open spec fn minted_record(
    a: Seq<AccountModel>,
    name: Seq<u8>,
    symbol: Seq<u8>,
    uri: Seq<u8>,
    bump: u8,
) -> MetaModel {
    MetaModel {
        store_id: a[3].key,
        nft_number: minted_store(a).nft_amount,
        name: padded(name, MAX_NAME_LENGTH as nat),
        symbol: padded(symbol, MAX_SYMBOL_LENGTH as nat),
        uri: padded(uri, MAX_URI_LENGTH as nat),
        mint: a[4].key,
        token_pool: a[5].key,
        authority: a[2].key,
        exist_nft: 1,
        bump,
    }
}

/// Issues one metadata record: the store's count goes up by one and the new
/// record carries the new count as its number.
pub fn mint_nft(ids: &ProgramIds, accounts: &[AccountView], args: MintNFTArgs) -> (r: Result<
    MintEffects,
    StoreError,
>)
    ensures
        match mint_error(*ids, models(accounts@), args.name@, args.symbol@, args.uri@) {
            Some(e) => r == Err::<MintEffects, StoreError>(e),
            None => r is Ok && r->Ok_0.record.bump == args.bump && r->Ok_0.record.data@
                == meta_encode(
                minted_record(models(accounts@), args.name@, args.symbol@, args.uri@, args.bump),
            ) && r->Ok_0.store_data@ == overwrite(
                accounts@[3].data@,
                store_encode(minted_store(models(accounts@))),
            ),
        },
{
    if accounts.len() < 9 {
        return Err(StoreError::NotEnoughAccounts);
    }
    let payer = &accounts[0];
    let nftmeta = &accounts[1];
    let authority = &accounts[2];
    let store_acc = &accounts[3];
    if let Err(e) = check_well_known(&accounts[7], &ids.rent_sysvar) {
        return Err(e);
    }
    if let Err(e) = check_well_known(&accounts[8], &ids.system_program) {
        return Err(e);
    }
    if let Err(e) = check_signer(payer) {
        return Err(e);
    }
    if let Err(e) = check_signer(nftmeta) {
        return Err(e);
    }
    if let Err(e) = check_owned_initialized(store_acc, ids) {
        return Err(e);
    }
    if !accounts[6].key.same_as(&ids.token_program) {
        return Err(StoreError::UnexpectedExternalProgram);
    }
    if nftmeta.data.len() != 0 {
        return Err(StoreError::AlreadyInitialized);
    }
    let name = match pad_text(args.name.as_slice(), MAX_NAME_LENGTH) {
        Ok(v) => v,
        Err(e) => return Err(e),
    };
    let symbol = match pad_text(args.symbol.as_slice(), MAX_SYMBOL_LENGTH) {
        Ok(v) => v,
        Err(e) => return Err(e),
    };
    let uri = match pad_text(args.uri.as_slice(), MAX_URI_LENGTH) {
        Ok(v) => v,
        Err(e) => return Err(e),
    };
    let mut store = match StoreData::decode(store_acc.data.as_slice()) {
        Ok(s) => s,
        Err(e) => return Err(e),
    };
    if store.nft_amount == u64::MAX {
        return Err(StoreError::CounterOverflow);
    }
    store.nft_amount = store.nft_amount + 1;
    let store_bytes = store.encode();
    let store_data = overwrite_prefix(store_acc.data.as_slice(), &store_bytes);
    let record = NFTMeta {
        store_id: store_acc.key,
        nft_number: store.nft_amount,
        name,
        symbol,
        uri,
        mint: accounts[4].key,
        token_pool: accounts[5].key,
        authority: authority.key,
        exist_nft: 1,
        bump: args.bump,
    };
    proof {
        assert(models(accounts@)[3] == store_acc@);
        assert(store@ == minted_store(models(accounts@)));
    }
    let data = record.encode();
    Ok(MintEffects { record: NewAccount { bump: args.bump, data }, store_data })
}

// ----- UpdateRecord: payer, record, rent, system -----

/// The first check that an UpdateRecord instruction fails, if any.
pub open spec fn update_error(ids: ProgramIds, a: Seq<AccountModel>, uri: Seq<u8>) -> Option<
    StoreError,
> {
    if a.len() < 4 {
        Some(StoreError::NotEnoughAccounts)
    } else if a[2].key != ids.rent_sysvar@ || a[3].key != ids.system_program@ {
        Some(StoreError::InvalidWellKnownAddress)
    } else if a[1].owner != ids.program_id@ {
        Some(StoreError::NotOwnedByProgram)
    } else if is_zero(a[1].data) {
        Some(StoreError::NotInitialized)
    } else if !meta_decodable(a[1].data) {
        Some(StoreError::MalformedRecord)
    } else if uri.len() > MAX_URI_LENGTH {
        Some(StoreError::TextTooLong)
    } else {
        None
    }
}

/// The stored record with its uri replaced by the padded new one.
pub open spec fn updated_record(a: Seq<AccountModel>, uri: Seq<u8>) -> MetaModel {
    MetaModel { uri: padded(uri, MAX_URI_LENGTH as nat), ..meta_decode(a[1].data) }
}

/// Replaces the uri of a stored metadata record; returns the record
/// account's new data.
pub fn update_mint(ids: &ProgramIds, accounts: &[AccountView], args: MintNFTArgs) -> (r: Result<
    Vec<u8>,
    StoreError,
>)
    ensures
        match update_error(*ids, models(accounts@), args.uri@) {
            Some(e) => r == Err::<Vec<u8>, StoreError>(e),
            None => r is Ok && r->Ok_0@ == overwrite(
                accounts@[1].data@,
                meta_encode(updated_record(models(accounts@), args.uri@)),
            ),
        },
{
    if accounts.len() < 4 {
        return Err(StoreError::NotEnoughAccounts);
    }
    let nftmeta = &accounts[1];
    if let Err(e) = check_well_known(&accounts[2], &ids.rent_sysvar) {
        return Err(e);
    }
    if let Err(e) = check_well_known(&accounts[3], &ids.system_program) {
        return Err(e);
    }
    if let Err(e) = check_owned_initialized(nftmeta, ids) {
        return Err(e);
    }
    let mut nft = match NFTMeta::decode(nftmeta.data.as_slice()) {
        Ok(m) => m,
        Err(e) => return Err(e),
    };
    let uri = match pad_text(args.uri.as_slice(), MAX_URI_LENGTH) {
        Ok(v) => v,
        Err(e) => return Err(e),
    };
    nft.uri = uri;
    proof {
        assert(models(accounts@)[1] == nftmeta@);
        assert(nft@ == updated_record(models(accounts@), args.uri@));
    }
    let bytes = nft.encode();
    Ok(overwrite_prefix(nftmeta.data.as_slice(), &bytes))
}

} // verus!
