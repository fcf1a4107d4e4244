use lottery_store::accounts::{is_zero_account, AccountView};
use lottery_store::address::{Address, ProgramIds};
use lottery_store::codec::{pad_text, MAX_NAME_LENGTH, MAX_NFTMETA_LEN, MAX_URI_LENGTH, STORE_DATA_LEN};
use lottery_store::error::StoreError;
use lottery_store::processor::{create_store, mint_nft, update_mint, CreateStoreArgs, MintNFTArgs};
use lottery_store::records::{NFTMeta, StoreData};

fn addr(b: u8) -> Address {
    Address::new([b; 32])
}

fn ids() -> ProgramIds {
    ProgramIds {
        program_id: addr(1),
        rent_sysvar: addr(2),
        system_program: addr(3),
        token_program: addr(4),
    }
}

fn account(key: u8, owner: u8, is_signer: bool, data: Vec<u8>) -> AccountView {
    AccountView { key: addr(key), owner: addr(owner), is_signer, data }
}

fn store_accounts(store_data: Vec<u8>) -> Vec<AccountView> {
    vec![
        account(10, 3, true, vec![]),
        account(11, 3, true, store_data),
        account(12, 3, false, vec![]),
        account(2, 0, false, vec![]),
        account(3, 0, false, vec![]),
    ]
}

fn store_bytes(count: u64) -> Vec<u8> {
    StoreData { owner: addr(10), authority: addr(12), nft_amount: count, bump: 254 }.encode()
}

fn mint_accounts(store_data: Vec<u8>) -> Vec<AccountView> {
    vec![
        account(10, 3, true, vec![]),
        account(20, 3, true, vec![]),
        account(12, 3, false, vec![]),
        account(11, 1, false, store_data),
        account(21, 4, false, vec![]),
        account(22, 4, false, vec![]),
        account(4, 0, false, vec![]),
        account(2, 0, false, vec![]),
        account(3, 0, false, vec![]),
    ]
}

fn mint_args(name: &str, symbol: &str, uri: &str) -> MintNFTArgs {
    MintNFTArgs {
        name: name.as_bytes().to_vec(),
        symbol: symbol.as_bytes().to_vec(),
        uri: uri.as_bytes().to_vec(),
        bump: 7,
    }
}

fn update_accounts(record: Vec<u8>) -> Vec<AccountView> {
    vec![
        account(10, 3, false, vec![]),
        account(20, 1, false, record),
        account(2, 0, false, vec![]),
        account(3, 0, false, vec![]),
    ]
}

fn minted_record() -> Vec<u8> {
    let effects = mint_nft(&ids(), &mint_accounts(store_bytes(0)), mint_args("Ticket#1", "TIX", "https://a.io/1")).unwrap();
    effects.record.data
}

#[test]
fn create_store_on_fresh_account_writes_empty_store() {
    let created = create_store(&ids(), &store_accounts(vec![]), CreateStoreArgs { bump: 254 }).unwrap().unwrap();
    assert_eq!(created.bump, 254);
    assert_eq!(created.data.len(), STORE_DATA_LEN);
    let store = StoreData::decode(&created.data).unwrap();
    assert_eq!(store.owner, addr(10));
    assert_eq!(store.authority, addr(12));
    assert_eq!(store.nft_amount, 0);
    assert_eq!(store.bump, 254);
    assert_eq!(&created.data[0..32], &[10u8; 32]);
    assert_eq!(&created.data[64..73], &[0, 0, 0, 0, 0, 0, 0, 0, 254]);
}

#[test]
fn create_store_twice_is_a_no_op() {
    let created = create_store(&ids(), &store_accounts(vec![]), CreateStoreArgs { bump: 254 }).unwrap().unwrap();
    let mut accounts = store_accounts(created.data.clone());
    accounts[1].owner = addr(1);
    assert_eq!(create_store(&ids(), &accounts, CreateStoreArgs { bump: 254 }), Ok(None));
    assert_eq!(create_store(&ids(), &accounts, CreateStoreArgs { bump: 9 }), Ok(None));
}

#[test]
fn create_store_without_store_signature_fails() {
    let mut accounts = store_accounts(vec![]);
    accounts[1].is_signer = false;
    assert_eq!(create_store(&ids(), &accounts, CreateStoreArgs { bump: 1 }), Err(StoreError::SignatureMissing));
}

#[test]
fn create_store_without_payer_signature_fails() {
    let mut accounts = store_accounts(vec![]);
    accounts[0].is_signer = false;
    assert_eq!(create_store(&ids(), &accounts, CreateStoreArgs { bump: 1 }), Err(StoreError::SignatureMissing));
}

#[test]
fn create_store_with_too_few_accounts_fails() {
    let mut accounts = store_accounts(vec![]);
    accounts.pop();
    assert_eq!(create_store(&ids(), &accounts, CreateStoreArgs { bump: 1 }), Err(StoreError::NotEnoughAccounts));
}

#[test]
fn create_store_with_wrong_rent_account_fails() {
    let mut accounts = store_accounts(vec![]);
    accounts[3].key = addr(9);
    accounts[1].is_signer = false;
    assert_eq!(create_store(&ids(), &accounts, CreateStoreArgs { bump: 1 }), Err(StoreError::InvalidWellKnownAddress));
}

#[test]
fn create_store_with_wrong_system_account_fails() {
    let mut accounts = store_accounts(vec![]);
    accounts[4].key = addr(9);
    assert_eq!(create_store(&ids(), &accounts, CreateStoreArgs { bump: 1 }), Err(StoreError::InvalidWellKnownAddress));
}

#[test]
fn create_store_ignores_extra_accounts() {
    let mut accounts = store_accounts(vec![]);
    accounts.push(account(99, 99, false, vec![1]));
    assert!(create_store(&ids(), &accounts, CreateStoreArgs { bump: 1 }).unwrap().is_some());
}

#[test]
fn first_mint_pads_name_and_numbers_one() {
    let effects = mint_nft(&ids(), &mint_accounts(store_bytes(0)), mint_args("Ticket#1", "TIX", "https://a.io/1")).unwrap();
    assert_eq!(effects.record.bump, 7);
    assert_eq!(effects.record.data.len(), MAX_NFTMETA_LEN);
    let meta = NFTMeta::decode(&effects.record.data).unwrap();
    let mut name = b"Ticket#1".to_vec();
    name.extend_from_slice(&[0u8; 24]);
    assert_eq!(meta.name, name);
    assert_eq!(meta.name.len(), 32);
    assert_eq!(meta.nft_number, 1);
    assert_eq!(&effects.record.data[40..44], &[32, 0, 0, 0]);
    assert_eq!(&effects.record.data[44..52], b"Ticket#1");
    assert_eq!(&effects.record.data[52..76], &[0u8; 24]);
}

#[test]
fn mint_increments_store_count() {
    let effects = mint_nft(&ids(), &mint_accounts(store_bytes(41)), mint_args("a", "b", "c")).unwrap();
    let store = StoreData::decode(&effects.store_data).unwrap();
    assert_eq!(store.nft_amount, 42);
    assert_eq!(store.owner, addr(10));
    assert_eq!(store.authority, addr(12));
    assert_eq!(store.bump, 254);
    let meta = NFTMeta::decode(&effects.record.data).unwrap();
    assert_eq!(meta.nft_number, 42);
    assert_eq!(meta.store_id, addr(11));
    assert_eq!(meta.mint, addr(21));
    assert_eq!(meta.token_pool, addr(22));
    assert_eq!(meta.authority, addr(12));
    assert_eq!(meta.exist_nft, 1);
    assert_eq!(meta.bump, 7);
}

#[test]
fn mint_keeps_trailing_store_bytes() {
    let mut data = store_bytes(3);
    data.extend_from_slice(&[5, 6, 7]);
    let effects = mint_nft(&ids(), &mint_accounts(data), mint_args("a", "b", "c")).unwrap();
    assert_eq!(effects.store_data.len(), STORE_DATA_LEN + 3);
    assert_eq!(&effects.store_data[64..76], &[4, 0, 0, 0, 0, 0, 0, 0, 254, 5, 6, 7]);
}

#[test]
fn mint_without_record_signature_fails() {
    let mut accounts = mint_accounts(store_bytes(0));
    accounts[1].is_signer = false;
    assert_eq!(mint_nft(&ids(), &accounts, mint_args("a", "b", "c")), Err(StoreError::SignatureMissing));
}

#[test]
fn mint_without_payer_signature_fails() {
    let mut accounts = mint_accounts(store_bytes(0));
    accounts[0].is_signer = false;
    assert_eq!(mint_nft(&ids(), &accounts, mint_args("a", "b", "c")), Err(StoreError::SignatureMissing));
}

#[test]
fn mint_with_too_few_accounts_fails() {
    let mut accounts = mint_accounts(store_bytes(0));
    accounts.truncate(8);
    assert_eq!(mint_nft(&ids(), &accounts, mint_args("a", "b", "c")), Err(StoreError::NotEnoughAccounts));
}

#[test]
fn mint_with_foreign_store_fails() {
    let mut accounts = mint_accounts(store_bytes(0));
    accounts[3].owner = addr(8);
    assert_eq!(mint_nft(&ids(), &accounts, mint_args("a", "b", "c")), Err(StoreError::NotOwnedByProgram));
}

#[test]
fn mint_with_zeroed_store_fails() {
    let accounts = mint_accounts(vec![0u8; STORE_DATA_LEN]);
    assert_eq!(mint_nft(&ids(), &accounts, mint_args("a", "b", "c")), Err(StoreError::NotInitialized));
}

#[test]
fn mint_over_existing_record_fails() {
    let mut accounts = mint_accounts(store_bytes(0));
    accounts[1].data = vec![0u8; MAX_NFTMETA_LEN];
    assert_eq!(mint_nft(&ids(), &accounts, mint_args("a", "b", "c")), Err(StoreError::AlreadyInitialized));
}

#[test]
fn mint_with_wrong_token_program_fails() {
    let mut accounts = mint_accounts(store_bytes(0));
    accounts[6].key = addr(5);
    assert_eq!(mint_nft(&ids(), &accounts, mint_args("a", "b", "c")), Err(StoreError::UnexpectedExternalProgram));
}

#[test]
fn mint_with_wrong_rent_account_fails() {
    let mut accounts = mint_accounts(store_bytes(0));
    accounts[7].key = addr(5);
    assert_eq!(mint_nft(&ids(), &accounts, mint_args("a", "b", "c")), Err(StoreError::InvalidWellKnownAddress));
}

#[test]
fn mint_with_long_name_fails() {
    let long = "x".repeat(33);
    assert_eq!(mint_nft(&ids(), &mint_accounts(store_bytes(0)), mint_args(&long, "b", "c")), Err(StoreError::TextTooLong));
}

#[test]
fn mint_with_long_symbol_fails() {
    assert_eq!(mint_nft(&ids(), &mint_accounts(store_bytes(0)), mint_args("a", "ABCDEFGHIJK", "c")), Err(StoreError::TextTooLong));
}

#[test]
fn mint_with_short_store_data_fails() {
    let accounts = mint_accounts(vec![1u8; STORE_DATA_LEN - 1]);
    assert_eq!(mint_nft(&ids(), &accounts, mint_args("a", "b", "c")), Err(StoreError::MalformedRecord));
}

#[test]
fn mint_at_largest_count_fails() {
    assert_eq!(mint_nft(&ids(), &mint_accounts(store_bytes(u64::MAX)), mint_args("a", "b", "c")), Err(StoreError::CounterOverflow));
}

#[test]
fn update_changes_only_the_uri() {
    let old = minted_record();
    let new = update_mint(&ids(), &update_accounts(old.clone()), mint_args("", "", "ipfs://new")).unwrap();
    assert_eq!(new.len(), old.len());
    assert_eq!(&new[..94], &old[..94]);
    assert_eq!(&new[294..], &old[294..]);
    let before = NFTMeta::decode(&old).unwrap();
    let after = NFTMeta::decode(&new).unwrap();
    let mut uri = b"ipfs://new".to_vec();
    uri.resize(MAX_URI_LENGTH, 0);
    assert_eq!(after.uri, uri);
    assert_eq!(after.name, before.name);
    assert_eq!(after.nft_number, before.nft_number);
    assert_ne!(after.uri, before.uri);
}

#[test]
fn update_with_long_uri_fails() {
    let long = "u".repeat(201);
    assert_eq!(update_mint(&ids(), &update_accounts(minted_record()), mint_args("", "", &long)), Err(StoreError::TextTooLong));
}

#[test]
fn update_of_foreign_record_fails() {
    let mut accounts = update_accounts(minted_record());
    accounts[1].owner = addr(8);
    assert_eq!(update_mint(&ids(), &accounts, mint_args("", "", "x")), Err(StoreError::NotOwnedByProgram));
}

#[test]
fn update_of_zeroed_record_fails() {
    let accounts = update_accounts(vec![0u8; MAX_NFTMETA_LEN]);
    assert_eq!(update_mint(&ids(), &accounts, mint_args("", "", "x")), Err(StoreError::NotInitialized));
}

#[test]
fn update_of_malformed_record_fails() {
    let mut record = minted_record();
    record[40] = 31;
    assert_eq!(update_mint(&ids(), &update_accounts(record), mint_args("", "", "x")), Err(StoreError::MalformedRecord));
}

#[test]
fn update_with_wrong_system_account_fails() {
    let mut accounts = update_accounts(minted_record());
    accounts[3].key = addr(7);
    assert_eq!(update_mint(&ids(), &accounts, mint_args("", "", "x")), Err(StoreError::InvalidWellKnownAddress));
}

#[test]
fn update_with_too_few_accounts_fails() {
    let mut accounts = update_accounts(minted_record());
    accounts.truncate(3);
    assert_eq!(update_mint(&ids(), &accounts, mint_args("", "", "x")), Err(StoreError::NotEnoughAccounts));
}

#[test]
fn pad_text_appends_zeros() {
    assert_eq!(pad_text(b"Ticket#1", MAX_NAME_LENGTH), Ok({
        let mut v = b"Ticket#1".to_vec();
        v.extend_from_slice(&[0u8; 24]);
        v
    }));
    assert_eq!(pad_text(b"", 3), Ok(vec![0, 0, 0]));
    assert_eq!(pad_text(b"abc", 3), Ok(b"abc".to_vec()));
    assert_eq!(pad_text(b"abcd", 3), Err(StoreError::TextTooLong));
}

#[test]
fn store_record_round_trip() {
    let store = StoreData { owner: addr(10), authority: addr(12), nft_amount: 0x0102030405060708, bump: 3 };
    let bytes = store.encode();
    assert_eq!(&bytes[64..72], &[8, 7, 6, 5, 4, 3, 2, 1]);
    assert_eq!(StoreData::decode(&bytes), Ok(store));
}

#[test]
fn meta_record_round_trip() {
    let bytes = minted_record();
    let meta = NFTMeta::decode(&bytes).unwrap();
    assert_eq!(meta.encode(), bytes);
    assert_eq!(NFTMeta::decode(&meta.encode()), Ok(meta));
}

#[test]
fn zero_account_detection() {
    assert!(is_zero_account(&[]));
    assert!(is_zero_account(&[0, 0, 0]));
    assert!(!is_zero_account(&[0, 1, 0]));
}

#[test]
fn address_comparison() {
    assert!(addr(3).same_as(&addr(3)));
    let mut b = [3u8; 32];
    b[31] = 4;
    assert!(!addr(3).same_as(&Address::new(b)));
    assert_eq!(Address::new(b).to_bytes(), b);
}

#[test]
fn mint_reports_wrong_token_program_before_existing_record() {
    let mut accounts = mint_accounts(store_bytes(0));
    accounts[6].key = addr(5);
    accounts[1].data = vec![1u8; MAX_NFTMETA_LEN];
    assert_eq!(mint_nft(&ids(), &accounts, mint_args("a", "b", "c")), Err(StoreError::UnexpectedExternalProgram));
}

#[test]
fn update_reports_malformed_record_before_long_uri() {
    let mut record = minted_record();
    record[40] = 31;
    let long = "u".repeat(201);
    assert_eq!(update_mint(&ids(), &update_accounts(record), mint_args("", "", &long)), Err(StoreError::MalformedRecord));
}
