//! Fixed-width binary layout of the two records.
//!
//! Integers are little-endian; a text field is a four-byte little-endian
//! length followed by exactly that many bytes, and every text field is padded
//! with zero bytes to its maximum, so both records have a fixed size.
use crate::address::{Address, ADDRESS_LEN};
use crate::error::StoreError;
use vstd::prelude::*;

verus! {

pub const MAX_NAME_LENGTH: usize = 32;

pub const MAX_SYMBOL_LENGTH: usize = 10;

pub const MAX_URI_LENGTH: usize = 200;

/// Encoded size of a store record: two addresses, the count and the bump.
pub const STORE_DATA_LEN: usize = 73;

/// Encoded size of a metadata record with every text field at its maximum.
pub const MAX_NFTMETA_LEN: usize = 392;

// Offsets of the metadata record's fields.
pub const NUMBER_OFFSET: usize = 32;

pub const NAME_OFFSET: usize = 40;

pub const SYMBOL_OFFSET: usize = 76;

pub const URI_OFFSET: usize = 90;

pub const MINT_OFFSET: usize = 294;

pub const POOL_OFFSET: usize = 326;

pub const AUTHORITY_OFFSET: usize = 358;

pub const EXIST_OFFSET: usize = 390;

pub const BUMP_OFFSET: usize = 391;

// ----- integers -----

/// Little-endian bytes of a 64-bit value.
pub open spec fn le_u64(x: u64) -> Seq<u8> {
    seq![
        x as u8,
        (x >> 8u64) as u8,
        (x >> 16u64) as u8,
        (x >> 24u64) as u8,
        (x >> 32u64) as u8,
        (x >> 40u64) as u8,
        (x >> 48u64) as u8,
        (x >> 56u64) as u8,
    ]
}

/// The 64-bit value of eight little-endian bytes.
pub open spec fn u64_of_le(s: Seq<u8>) -> u64 {
    (s[0] as u64) | ((s[1] as u64) << 8u64) | ((s[2] as u64) << 16u64) | ((s[3] as u64)
        << 24u64) | ((s[4] as u64) << 32u64) | ((s[5] as u64) << 40u64) | ((s[6] as u64)
        << 48u64) | ((s[7] as u64) << 56u64)
}

/// Four-byte little-endian length prefix of a text field.
pub open spec fn len_prefix(n: nat) -> Seq<u8> {
    seq![(n % 256) as u8, ((n / 256) % 256) as u8, ((n / 65536) % 256) as u8, ((n / 16777216) % 256) as u8]
}

proof fn lemma_u64_value(x: u64)
    ensures
        x == ((x as u8) as u64) | ((((x >> 8u64) as u8) as u64) << 8u64) | ((((x >> 16u64) as u8)
            as u64) << 16u64) | ((((x >> 24u64) as u8) as u64) << 24u64) | ((((x >> 32u64) as u8)
            as u64) << 32u64) | ((((x >> 40u64) as u8) as u64) << 40u64) | ((((x >> 48u64) as u8)
            as u64) << 48u64) | ((((x >> 56u64) as u8) as u64) << 56u64),
{
    assert(x == ((x as u8) as u64) | ((((x >> 8u64) as u8) as u64) << 8u64) | ((((x >> 16u64) as u8)
        as u64) << 16u64) | ((((x >> 24u64) as u8) as u64) << 24u64) | ((((x >> 32u64) as u8)
        as u64) << 32u64) | ((((x >> 40u64) as u8) as u64) << 40u64) | ((((x >> 48u64) as u8)
        as u64) << 48u64) | ((((x >> 56u64) as u8) as u64) << 56u64)) by (bit_vector);
}

proof fn lemma_u64_bytes(b0: u8, b1: u8, b2: u8, b3: u8, b4: u8, b5: u8, b6: u8, b7: u8, v: u64)
    requires
        v == (b0 as u64) | ((b1 as u64) << 8u64) | ((b2 as u64) << 16u64) | ((b3 as u64) << 24u64)
            | ((b4 as u64) << 32u64) | ((b5 as u64) << 40u64) | ((b6 as u64) << 48u64) | ((b7
            as u64) << 56u64),
    ensures
        v as u8 == b0,
        (v >> 8u64) as u8 == b1,
        (v >> 16u64) as u8 == b2,
        (v >> 24u64) as u8 == b3,
        (v >> 32u64) as u8 == b4,
        (v >> 40u64) as u8 == b5,
        (v >> 48u64) as u8 == b6,
        (v >> 56u64) as u8 == b7,
{
    assert(v as u8 == b0 && (v >> 8u64) as u8 == b1 && (v >> 16u64) as u8 == b2 && (v >> 24u64)
        as u8 == b3 && (v >> 32u64) as u8 == b4 && (v >> 40u64) as u8 == b5 && (v >> 48u64) as u8
        == b6 && (v >> 56u64) as u8 == b7) by (bit_vector)
        requires
            v == (b0 as u64) | ((b1 as u64) << 8u64) | ((b2 as u64) << 16u64) | ((b3 as u64)
                << 24u64) | ((b4 as u64) << 32u64) | ((b5 as u64) << 40u64) | ((b6 as u64)
                << 48u64) | ((b7 as u64) << 56u64),
    ;
}

/// Decoding the bytes of a value gives the value back.
pub proof fn lemma_le_u64_round_trip(x: u64)
    ensures
        u64_of_le(le_u64(x)) == x,
{
    lemma_u64_value(x);
}

/// Encoding the value of eight bytes gives the bytes back.
pub proof fn lemma_u64_of_le_round_trip(s: Seq<u8>)
    requires
        s.len() == 8,
    ensures
        le_u64(u64_of_le(s)) == s,
{
    lemma_u64_bytes(s[0], s[1], s[2], s[3], s[4], s[5], s[6], s[7], u64_of_le(s));
    assert(le_u64(u64_of_le(s)) =~= s);
}

// ----- byte buffers -----

/// Appends `s` to `out`.
pub fn push_bytes(out: &mut Vec<u8>, s: &[u8])
    ensures
        final(out)@ == old(out)@ + s@,
{
    let ghost start = out@;
    let mut i: usize = 0;
    while i < s.len()
        invariant
            i <= s@.len(),
            out@ == start + s@.subrange(0, i as int),
        decreases s@.len() - i,
    {
        out.push(s[i]);
        i = i + 1;
        assert(out@ =~= start + s@.subrange(0, i as int));
    }
    assert(s@.subrange(0, i as int) =~= s@);
}

/// Appends the little-endian bytes of `x` to `out`.
pub fn push_u64(out: &mut Vec<u8>, x: u64)
    ensures
        final(out)@ == old(out)@ + le_u64(x),
{
    let ghost start = out@;
    out.push(x as u8);
    out.push((x >> 8u64) as u8);
    out.push((x >> 16u64) as u8);
    out.push((x >> 24u64) as u8);
    out.push((x >> 32u64) as u8);
    out.push((x >> 40u64) as u8);
    out.push((x >> 48u64) as u8);
    out.push((x >> 56u64) as u8);
    assert(out@ =~= start + le_u64(x));
}

/// Appends the length prefix of a text field of `n` bytes to `out`.
pub fn push_len_prefix(out: &mut Vec<u8>, n: usize)
    requires
        n < 0x1_0000_0000,
    ensures
        final(out)@ == old(out)@ + len_prefix(n as nat),
{
    let ghost start = out@;
    out.push((n % 256) as u8);
    out.push(((n / 256) % 256) as u8);
    out.push(((n / 65536) % 256) as u8);
    out.push(((n / 16777216) % 256) as u8);
    assert(out@ =~= start + len_prefix(n as nat));
}

/// The 64-bit value stored at `off`.
pub fn read_u64(data: &[u8], off: usize) -> (r: u64)
    requires
        off + 8 <= data@.len(),
    ensures
        r == u64_of_le(data@.subrange(off as int, off + 8)),
{
    (data[off] as u64) | ((data[off + 1] as u64) << 8u64) | ((data[off + 2] as u64) << 16u64) | ((
    data[off + 3] as u64) << 24u64) | ((data[off + 4] as u64) << 32u64) | ((data[off + 5] as u64)
        << 40u64) | ((data[off + 6] as u64) << 48u64) | ((data[off + 7] as u64) << 56u64)
}

/// The `n` bytes stored at `off`.
pub fn read_bytes(data: &[u8], off: usize, n: usize) -> (r: Vec<u8>)
    requires
        off + n <= data@.len(),
    ensures
        r@ == data@.subrange(off as int, off + n),
{
    let len = data.len();
    let mut r: Vec<u8> = Vec::new();
    let mut i: usize = 0;
    while i < n
        invariant
            i <= n,
            off + n <= len,
            len == data@.len(),
            r@ == data@.subrange(off as int, off + i),
        decreases n - i,
    {
        r.push(data[off + i]);
        i = i + 1;
        assert(r@ =~= data@.subrange(off as int, off + i));
    }
    r
}

/// The address stored at `off`.
pub fn read_address(data: &[u8], off: usize) -> (r: Address)
    requires
        off + ADDRESS_LEN <= data@.len(),
    ensures
        r@ == data@.subrange(off as int, off + ADDRESS_LEN),
{
    let len = data.len();
    let mut bytes: [u8; 32] = [0u8; 32];
    let mut i: usize = 0;
    while i < ADDRESS_LEN
        invariant
            i <= ADDRESS_LEN,
            off + ADDRESS_LEN <= len,
            len == data@.len(),
            bytes@.len() == ADDRESS_LEN,
            forall|j: int| 0 <= j < i ==> bytes@[j] == data@[off + j],
        decreases ADDRESS_LEN - i,
    {
        bytes[i] = data[off + i];
        i = i + 1;
    }
    let r = Address { bytes };
    assert(r@ =~= data@.subrange(off as int, off + ADDRESS_LEN));
    r
}

/// `data` with its first bytes replaced by `enc`.
pub open spec fn overwrite(data: Seq<u8>, enc: Seq<u8>) -> Seq<u8> {
    enc + data.skip(enc.len() as int)
}

/// A copy of `data` whose first bytes are replaced by `enc`; the length and
/// the bytes past `enc` stay as they were.
pub fn overwrite_prefix(data: &[u8], enc: &Vec<u8>) -> (r: Vec<u8>)
    requires
        enc@.len() <= data@.len(),
    ensures
        r@ == overwrite(data@, enc@),
        r@.len() == data@.len(),
{
    let mut r: Vec<u8> = Vec::new();
    push_bytes(&mut r, enc.as_slice());
    let mut i: usize = enc.len();
    while i < data.len()
        invariant
            enc@.len() <= i <= data@.len(),
            r@ == enc@ + data@.subrange(enc@.len() as int, i as int),
        decreases data@.len() - i,
    {
        r.push(data[i]);
        i = i + 1;
        assert(r@ =~= enc@ + data@.subrange(enc@.len() as int, i as int));
    }
    assert(data@.subrange(enc@.len() as int, i as int) =~= data@.skip(enc@.len() as int));
    r
}

// ----- padded text -----

/// `n` zero bytes.
pub open spec fn zeros(n: nat) -> Seq<u8> {
    Seq::new(n, |i: int| 0u8)
}

/// The text followed by zero bytes up to `max` bytes in all.
pub open spec fn padded(t: Seq<u8>, max: nat) -> Seq<u8> {
    t + zeros((max - t.len()) as nat)
}

/// The field value of `text` in a field of `max` bytes: the text followed by
/// zero bytes, or `TextTooLong` when the text does not fit.
pub fn pad_text(text: &[u8], max: usize) -> (r: Result<Vec<u8>, StoreError>)
    ensures
        text@.len() <= max ==> r == Ok::<Vec<u8>, StoreError>(r->Ok_0) && r->Ok_0@ == padded(
            text@,
            max as nat,
        ),
        text@.len() > max ==> r == Err::<Vec<u8>, StoreError>(StoreError::TextTooLong),
{
    if text.len() > max {
        return Err(StoreError::TextTooLong);
    }
    let mut r: Vec<u8> = Vec::new();
    push_bytes(&mut r, text);
    while r.len() < max
        invariant
            text@.len() <= r@.len() <= max,
            r@ == text@ + zeros((r@.len() - text@.len()) as nat),
        decreases max - r@.len(),
    {
        r.push(0u8);
        assert(r@ =~= text@ + zeros((r@.len() - text@.len()) as nat));
    }
    Ok(r)
}

} // verus!
