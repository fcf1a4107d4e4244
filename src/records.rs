//! The store record and the metadata record: their models, their encodings
//! and the laws that tie encoding and decoding together.
use crate::address::{Address, ADDRESS_LEN};
use crate::codec::{
    le_u64, len_prefix, lemma_le_u64_round_trip, lemma_u64_of_le_round_trip, push_bytes, push_len_prefix,
    push_u64, read_address, read_bytes, read_u64, u64_of_le, AUTHORITY_OFFSET, BUMP_OFFSET,
    EXIST_OFFSET, MAX_NAME_LENGTH, MAX_NFTMETA_LEN, MAX_SYMBOL_LENGTH, MAX_URI_LENGTH, MINT_OFFSET,
    NAME_OFFSET, NUMBER_OFFSET, POOL_OFFSET, STORE_DATA_LEN, SYMBOL_OFFSET, URI_OFFSET,
};
use crate::error::StoreError;
use vstd::prelude::*;

verus! {

/// What a store record holds, with addresses as byte sequences.
pub struct StoreModel {
    pub owner: Seq<u8>,
    pub authority: Seq<u8>,
    pub nft_amount: u64,
    pub bump: u8,
}

/// The store record: who created it, who may act for it, and how many
/// metadata records it has issued.
#[derive(Clone, Copy, Debug, PartialEq, Eq)]
pub struct StoreData {
    pub owner: Address,
    pub authority: Address,
    pub nft_amount: u64,
    pub bump: u8,
}

impl View for StoreData {
    type V = StoreModel;

    open spec fn view(&self) -> StoreModel {
        StoreModel {
            owner: self.owner@,
            authority: self.authority@,
            nft_amount: self.nft_amount,
            bump: self.bump,
        }
    }
}

pub open spec fn store_wf(m: StoreModel) -> bool {
    m.owner.len() == ADDRESS_LEN && m.authority.len() == ADDRESS_LEN
}

/// Bytes of a store record: owner, authority, count, bump.
pub open spec fn store_encode(m: StoreModel) -> Seq<u8> {
    m.owner + m.authority + le_u64(m.nft_amount) + seq![m.bump]
}

/// The store record held by the first bytes of `s`.
pub open spec fn store_decode(s: Seq<u8>) -> StoreModel {
    StoreModel {
        owner: s.subrange(0, 32),
        authority: s.subrange(32, 64),
        nft_amount: u64_of_le(s.subrange(64, 72)),
        bump: s[72],
    }
}

impl StoreData {
    pub fn encode(&self) -> (r: Vec<u8>)
        ensures
            r@ == store_encode(self@),
            r@.len() == STORE_DATA_LEN,
    {
        let mut r: Vec<u8> = Vec::new();
        push_bytes(&mut r, self.owner.bytes.as_slice());
        push_bytes(&mut r, self.authority.bytes.as_slice());
        push_u64(&mut r, self.nft_amount);
        r.push(self.bump);
        assert(r@ =~= store_encode(self@));
        r
    }

    /// Reads a store record from the front of an account's data.
    pub fn decode(data: &[u8]) -> (r: Result<StoreData, StoreError>)
        ensures
            data@.len() >= STORE_DATA_LEN ==> r is Ok && r->Ok_0@ == store_decode(data@),
            data@.len() < STORE_DATA_LEN ==> r == Err::<StoreData, StoreError>(
                StoreError::MalformedRecord,
            ),
    {
        if data.len() < STORE_DATA_LEN {
            return Err(StoreError::MalformedRecord);
        }
        let owner = read_address(data, 0);
        let authority = read_address(data, 32);
        let nft_amount = read_u64(data, 64);
        let bump = data[72];
        Ok(StoreData { owner, authority, nft_amount, bump })
    }
}

/// Decoding an encoded store record gives every field back.
pub proof fn lemma_store_round_trip(m: StoreModel)
    requires
        store_wf(m),
    ensures
        store_decode(store_encode(m)) == m,
        store_encode(m).len() == STORE_DATA_LEN,
{
    let s = store_encode(m);
    assert(s.subrange(0, 32) =~= m.owner);
    assert(s.subrange(32, 64) =~= m.authority);
    assert(s.subrange(64, 72) =~= le_u64(m.nft_amount));
    lemma_le_u64_round_trip(m.nft_amount);
}

/// Re-encoding a decoded store record gives back the bytes it was read from.
pub proof fn lemma_store_bytes_round_trip(s: Seq<u8>)
    requires
        s.len() >= STORE_DATA_LEN,
    ensures
        store_encode(store_decode(s)) == s.take(STORE_DATA_LEN as int),
        store_wf(store_decode(s)),
{
    lemma_u64_of_le_round_trip(s.subrange(64, 72));
    assert(store_encode(store_decode(s)) =~= s.take(STORE_DATA_LEN as int));
}

/// What a metadata record holds, with addresses and text as byte sequences.
pub struct MetaModel {
    pub store_id: Seq<u8>,
    pub nft_number: u64,
    pub name: Seq<u8>,
    pub symbol: Seq<u8>,
    pub uri: Seq<u8>,
    pub mint: Seq<u8>,
    pub token_pool: Seq<u8>,
    pub authority: Seq<u8>,
    pub exist_nft: u8,
    pub bump: u8,
}

/// One issued item. The text fields hold the text padded with zero bytes to
/// the field's maximum.
#[derive(Clone, Debug, PartialEq, Eq)]
pub struct NFTMeta {
    pub store_id: Address,
    pub nft_number: u64,
    pub name: Vec<u8>,
    pub symbol: Vec<u8>,
    pub uri: Vec<u8>,
    pub mint: Address,
    pub token_pool: Address,
    pub authority: Address,
    pub exist_nft: u8,
    pub bump: u8,
}

impl View for NFTMeta {
    type V = MetaModel;

    open spec fn view(&self) -> MetaModel {
        MetaModel {
            store_id: self.store_id@,
            nft_number: self.nft_number,
            name: self.name@,
            symbol: self.symbol@,
            uri: self.uri@,
            mint: self.mint@,
            token_pool: self.token_pool@,
            authority: self.authority@,
            exist_nft: self.exist_nft,
            bump: self.bump,
        }
    }
}

/// Every address has its width and every text field its full width.
pub open spec fn meta_wf(m: MetaModel) -> bool {
    &&& m.store_id.len() == ADDRESS_LEN
    &&& m.name.len() == MAX_NAME_LENGTH
    &&& m.symbol.len() == MAX_SYMBOL_LENGTH
    &&& m.uri.len() == MAX_URI_LENGTH
    &&& m.mint.len() == ADDRESS_LEN
    &&& m.token_pool.len() == ADDRESS_LEN
    &&& m.authority.len() == ADDRESS_LEN
}

/// Bytes of a metadata record, fields in declaration order.
pub open spec fn meta_encode(m: MetaModel) -> Seq<u8> {
    m.store_id + le_u64(m.nft_number) + len_prefix(m.name.len()) + m.name + len_prefix(
        m.symbol.len(),
    ) + m.symbol + len_prefix(m.uri.len()) + m.uri + m.mint + m.token_pool + m.authority
        + seq![m.exist_nft, m.bump]
}

/// Whether `s` starts with a metadata record: long enough, and each text
/// field announces its full width.
pub open spec fn meta_decodable(s: Seq<u8>) -> bool {
    &&& s.len() >= MAX_NFTMETA_LEN
    &&& s.subrange(40, 44) == len_prefix(MAX_NAME_LENGTH as nat)
    &&& s.subrange(76, 80) == len_prefix(MAX_SYMBOL_LENGTH as nat)
    &&& s.subrange(90, 94) == len_prefix(MAX_URI_LENGTH as nat)
}

/// The metadata record held by the first bytes of `s`.
pub open spec fn meta_decode(s: Seq<u8>) -> MetaModel {
    MetaModel {
        store_id: s.subrange(0, 32),
        nft_number: u64_of_le(s.subrange(32, 40)),
        name: s.subrange(44, 76),
        symbol: s.subrange(80, 90),
        uri: s.subrange(94, 294),
        mint: s.subrange(294, 326),
        token_pool: s.subrange(326, 358),
        authority: s.subrange(358, 390),
        exist_nft: s[390],
        bump: s[391],
    }
}

fn prefix_matches(data: &[u8], off: usize, n: usize) -> (r: bool)
    requires
        off + 4 <= data@.len(),
        n < 0x1_0000_0000,
    ensures
        r == (data@.subrange(off as int, off + 4) == len_prefix(n as nat)),
{
    let r = data[off] == (n % 256) as u8 && data[off + 1] == ((n / 256) % 256) as u8 && data[off
        + 2] == ((n / 65536) % 256) as u8 && data[off + 3] == ((n / 16777216) % 256) as u8;
    if r {
        assert(data@.subrange(off as int, off + 4) =~= len_prefix(n as nat));
    } else {
        let ghost p = len_prefix(n as nat);
        let ghost s = data@.subrange(off as int, off + 4);
        assert(s[0] != p[0] || s[1] != p[1] || s[2] != p[2] || s[3] != p[3]);
    }
    r
}

impl NFTMeta {
    pub open spec fn wf(&self) -> bool {
        meta_wf(self@)
    }

    pub fn encode(&self) -> (r: Vec<u8>)
        requires
            self.wf(),
        ensures
            r@ == meta_encode(self@),
            r@.len() == MAX_NFTMETA_LEN,
    {
        let mut r: Vec<u8> = Vec::new();
        push_bytes(&mut r, self.store_id.bytes.as_slice());
        push_u64(&mut r, self.nft_number);
        push_len_prefix(&mut r, self.name.len());
        push_bytes(&mut r, self.name.as_slice());
        push_len_prefix(&mut r, self.symbol.len());
        push_bytes(&mut r, self.symbol.as_slice());
        push_len_prefix(&mut r, self.uri.len());
        push_bytes(&mut r, self.uri.as_slice());
        push_bytes(&mut r, self.mint.bytes.as_slice());
        push_bytes(&mut r, self.token_pool.bytes.as_slice());
        push_bytes(&mut r, self.authority.bytes.as_slice());
        r.push(self.exist_nft);
        r.push(self.bump);
        assert(r@ =~= meta_encode(self@));
        r
    }

    /// Reads a metadata record from the front of an account's data.
    pub fn decode(data: &[u8]) -> (r: Result<NFTMeta, StoreError>)
        ensures
            meta_decodable(data@) ==> r is Ok && r->Ok_0@ == meta_decode(data@),
            !meta_decodable(data@) ==> r == Err::<NFTMeta, StoreError>(
                StoreError::MalformedRecord,
            ),
    {
        if data.len() < MAX_NFTMETA_LEN || !prefix_matches(data, NAME_OFFSET, MAX_NAME_LENGTH)
            || !prefix_matches(data, SYMBOL_OFFSET, MAX_SYMBOL_LENGTH) || !prefix_matches(
            data,
            URI_OFFSET,
            MAX_URI_LENGTH,
        ) {
            return Err(StoreError::MalformedRecord);
        }
        Ok(
            NFTMeta {
                store_id: read_address(data, 0),
                nft_number: read_u64(data, NUMBER_OFFSET),
                name: read_bytes(data, NAME_OFFSET + 4, MAX_NAME_LENGTH),
                symbol: read_bytes(data, SYMBOL_OFFSET + 4, MAX_SYMBOL_LENGTH),
                uri: read_bytes(data, URI_OFFSET + 4, MAX_URI_LENGTH),
                mint: read_address(data, MINT_OFFSET),
                token_pool: read_address(data, POOL_OFFSET),
                authority: read_address(data, AUTHORITY_OFFSET),
                exist_nft: data[EXIST_OFFSET],
                bump: data[BUMP_OFFSET],
            },
        )
    }
}

/// Decoding an encoded metadata record gives every field back, the zero
/// padding of the text fields included.
pub proof fn lemma_meta_round_trip(m: MetaModel)
    requires
        meta_wf(m),
    ensures
        meta_decodable(meta_encode(m)),
        meta_decode(meta_encode(m)) == m,
        meta_encode(m).len() == MAX_NFTMETA_LEN,
{
    let s = meta_encode(m);
    assert(s.subrange(0, 32) =~= m.store_id);
    assert(s.subrange(32, 40) =~= le_u64(m.nft_number));
    assert(s.subrange(40, 44) =~= len_prefix(MAX_NAME_LENGTH as nat));
    assert(s.subrange(44, 76) =~= m.name);
    assert(s.subrange(76, 80) =~= len_prefix(MAX_SYMBOL_LENGTH as nat));
    assert(s.subrange(80, 90) =~= m.symbol);
    assert(s.subrange(90, 94) =~= len_prefix(MAX_URI_LENGTH as nat));
    assert(s.subrange(94, 294) =~= m.uri);
    assert(s.subrange(294, 326) =~= m.mint);
    assert(s.subrange(326, 358) =~= m.token_pool);
    assert(s.subrange(358, 390) =~= m.authority);
    lemma_le_u64_round_trip(m.nft_number);
}

/// Re-encoding a decoded metadata record gives back the bytes it was read
/// from.
pub proof fn lemma_meta_bytes_round_trip(s: Seq<u8>)
    requires
        meta_decodable(s),
    ensures
        meta_wf(meta_decode(s)),
        meta_encode(meta_decode(s)) == s.take(MAX_NFTMETA_LEN as int),
{
    lemma_u64_of_le_round_trip(s.subrange(32, 40));
    assert(meta_encode(meta_decode(s)) =~= s.take(MAX_NFTMETA_LEN as int));
}

} // verus!
