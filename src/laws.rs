//! Laws that relate the operations to the state they leave behind.
use crate::accounts::{account_wf, accounts_wf, AccountModel};
use crate::address::ProgramIds;
use crate::codec::{overwrite, padded, MAX_NAME_LENGTH, MAX_SYMBOL_LENGTH, MAX_URI_LENGTH, STORE_DATA_LEN};
use crate::error::StoreError;
use crate::processor::{
    create_store_error, create_store_outcome, mint_error, minted_record, minted_store, new_store,
    update_error, updated_record,
};
use crate::records::{
    lemma_meta_bytes_round_trip, lemma_meta_round_trip, lemma_store_bytes_round_trip,
    lemma_store_round_trip, meta_decode, meta_encode, store_decode,
    store_encode, MetaModel, StoreModel,
};
use vstd::prelude::*;

verus! {

/// The accounts after the host has carried out a CreateStore outcome: a
/// created store account belongs to this program and holds the new bytes.
pub open spec fn after_create_store(ids: ProgramIds, a: Seq<AccountModel>, bump: u8) -> Seq<
    AccountModel,
> {
    match create_store_outcome(ids, a, bump) {
        Ok(Some(d)) => a.update(1, AccountModel { owner: ids.program_id@, data: d, ..a[1] }),
        _ => a,
    }
}

proof fn lemma_store_decode_prefix(s: Seq<u8>, t: Seq<u8>)
    requires
        s.len() >= STORE_DATA_LEN,
        t.len() >= STORE_DATA_LEN,
        s.take(STORE_DATA_LEN as int) == t.take(STORE_DATA_LEN as int),
    ensures
        store_decode(s) == store_decode(t),
{
    assert(s.subrange(0, 32) =~= s.take(73).subrange(0, 32));
    assert(t.subrange(0, 32) =~= t.take(73).subrange(0, 32));
    assert(s.subrange(32, 64) =~= s.take(73).subrange(32, 64));
    assert(t.subrange(32, 64) =~= t.take(73).subrange(32, 64));
    assert(s.subrange(64, 72) =~= s.take(73).subrange(64, 72));
    assert(t.subrange(64, 72) =~= t.take(73).subrange(64, 72));
    assert(s[72] == s.take(73)[72]);
    assert(t[72] == t.take(73)[72]);
}

/// A store created at a fresh account has issued nothing, is owned by the
/// payer and answers to the given authority.
pub proof fn lemma_create_store_fresh(ids: ProgramIds, a: Seq<AccountModel>, bump: u8)
    requires
        accounts_wf(a),
        create_store_error(ids, a) is None,
        a[1].data.len() == 0,
    ensures
        create_store_outcome(ids, a, bump) matches Ok(Some(d)) && store_decode(d) == (StoreModel {
            owner: a[0].key,
            authority: a[2].key,
            nft_amount: 0,
            bump,
        }),
{
    assert(account_wf(a[0]) && account_wf(a[2]));
    lemma_store_round_trip(new_store(a, bump));
}

/// CreateStore a second time on the same accounts succeeds and changes
/// nothing.
pub proof fn lemma_create_store_twice(ids: ProgramIds, a: Seq<AccountModel>, bump: u8, bump2: u8)
    requires
        accounts_wf(a),
        create_store_outcome(ids, a, bump) is Ok,
    ensures
        create_store_outcome(ids, after_create_store(ids, a, bump), bump2) == Ok::<
            Option<Seq<u8>>,
            StoreError,
        >(None),
        after_create_store(ids, after_create_store(ids, a, bump), bump2) == after_create_store(
            ids,
            a,
            bump,
        ),
{
    assert(account_wf(a[0]) && account_wf(a[2]));
    lemma_store_round_trip(new_store(a, bump));
}

/// A mint raises the store's count by exactly one, keeps the store's other
/// fields, and numbers the new record with the new count. The record's text
/// fields are the given texts padded with zero bytes.
pub proof fn lemma_mint_counts(
    ids: ProgramIds,
    a: Seq<AccountModel>,
    name: Seq<u8>,
    symbol: Seq<u8>,
    uri: Seq<u8>,
    bump: u8,
)
    requires
        accounts_wf(a),
        mint_error(ids, a, name, symbol, uri) is None,
    ensures
        ({
            let before = store_decode(a[3].data);
            let after = store_decode(overwrite(a[3].data, store_encode(minted_store(a))));
            let rec = meta_decode(meta_encode(minted_record(a, name, symbol, uri, bump)));
            &&& after.nft_amount == before.nft_amount + 1
            &&& after.owner == before.owner
            &&& after.authority == before.authority
            &&& after.bump == before.bump
            &&& rec.nft_number == after.nft_amount
            &&& rec.store_id == a[3].key
            &&& rec.name == padded(name, MAX_NAME_LENGTH as nat)
            &&& rec.symbol == padded(symbol, MAX_SYMBOL_LENGTH as nat)
            &&& rec.uri == padded(uri, MAX_URI_LENGTH as nat)
            &&& rec.exist_nft != 0
        }),
{
    let d = a[3].data;
    lemma_store_bytes_round_trip(d);
    let m = minted_store(a);
    lemma_store_round_trip(m);
    let enc = store_encode(m);
    assert(overwrite(d, enc).take(73) =~= enc.take(73));
    assert(enc.take(73) =~= enc);
    lemma_store_decode_prefix(overwrite(d, enc), enc);
    assert(account_wf(a[2]) && account_wf(a[3]) && account_wf(a[4]) && account_wf(a[5]));
    lemma_meta_round_trip(minted_record(a, name, symbol, uri, bump));
}

/// An update leaves every byte of the record account outside the uri field
/// as it was, and the decoded record differs from the old one in its uri
/// alone, which becomes the new uri padded with zero bytes.
pub proof fn lemma_update_only_uri(ids: ProgramIds, a: Seq<AccountModel>, uri: Seq<u8>)
    requires
        update_error(ids, a, uri) is None,
    ensures
        ({
            let old_data = a[1].data;
            let new_data = overwrite(old_data, meta_encode(updated_record(a, uri)));
            &&& new_data.len() == old_data.len()
            &&& forall|i: int|
                0 <= i < old_data.len() && !(94 <= i < 294) ==> #[trigger] new_data[i]
                    == old_data[i]
            &&& meta_decode(new_data) == (MetaModel {
                uri: padded(uri, MAX_URI_LENGTH as nat),
                ..meta_decode(old_data)
            })
        }),
{
    let d = a[1].data;
    let m0 = meta_decode(d);
    let m1 = updated_record(a, uri);
    lemma_meta_bytes_round_trip(d);
    lemma_meta_round_trip(m1);
    let e0 = meta_encode(m0);
    let e1 = meta_encode(m1);
    let nd = overwrite(d, e1);
    assert forall|i: int| 0 <= i < d.len() && !(94 <= i < 294) implies #[trigger] nd[i] == d[i] by {
        if i < 392 {
            assert(e0[i] == d.take(392)[i]);
            assert(e1[i] == e0[i]);
        }
    }
    assert(nd.take(392) =~= e1);
    assert(meta_decode(nd) =~= meta_decode(e1)) by {
        assert(nd.subrange(0, 32) =~= e1.subrange(0, 32));
        assert(nd.subrange(32, 40) =~= e1.subrange(32, 40));
        assert(nd.subrange(44, 76) =~= e1.subrange(44, 76));
        assert(nd.subrange(80, 90) =~= e1.subrange(80, 90));
        assert(nd.subrange(94, 294) =~= e1.subrange(94, 294));
        assert(nd.subrange(294, 326) =~= e1.subrange(294, 326));
        assert(nd.subrange(326, 358) =~= e1.subrange(326, 358));
        assert(nd.subrange(358, 390) =~= e1.subrange(358, 390));
    }
}

/// CreateStore without the payer's or the new store's signature fails with
/// `SignatureMissing`, once the account list has its length and its
/// well-known addresses.
pub proof fn lemma_create_store_needs_signers(ids: ProgramIds, a: Seq<AccountModel>, bump: u8)
    requires
        a.len() >= 5,
        a[3].key == ids.rent_sysvar@,
        a[4].key == ids.system_program@,
        !a[0].is_signer || !a[1].is_signer,
    ensures
        create_store_outcome(ids, a, bump) == Err::<Option<Seq<u8>>, StoreError>(
            StoreError::SignatureMissing,
        ),
        after_create_store(ids, a, bump) == a,
{
}

/// MintRecord without the payer's or the new record's signature fails with
/// `SignatureMissing`, once the account list has its length and its
/// well-known addresses.
pub proof fn lemma_mint_needs_signers(
    ids: ProgramIds,
    a: Seq<AccountModel>,
    name: Seq<u8>,
    symbol: Seq<u8>,
    uri: Seq<u8>,
)
    requires
        a.len() >= 9,
        a[7].key == ids.rent_sysvar@,
        a[8].key == ids.system_program@,
        !a[0].is_signer || !a[1].is_signer,
    ensures
        mint_error(ids, a, name, symbol, uri) == Some(StoreError::SignatureMissing),
{
}

} // verus!
