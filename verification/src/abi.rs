//! The 32-byte words in which the ledger encodes event data and call data.

use crate::h160::H160;
use crate::u256::{pow128, pow192, pow64, U256};
use vstd::prelude::*;

verus! {

/// The number that the eight bytes from `at` stand for, most significant
/// byte first.
pub open spec fn be_u64(bytes: Seq<u8>, at: int) -> nat {
    (bytes[at] as nat) * 0x100_0000_0000_0000 + (bytes[at + 1] as nat) * 0x1_0000_0000_0000 + (
    bytes[at + 2] as nat) * 0x100_0000_0000 + (bytes[at + 3] as nat) * 0x1_0000_0000 + (bytes[at
        + 4] as nat) * 0x100_0000 + (bytes[at + 5] as nat) * 0x1_0000 + (bytes[at + 6] as nat)
        * 0x100 + (bytes[at + 7] as nat)
}

/// The number that the 32 bytes from `at` stand for, most significant byte
/// first.
pub open spec fn word_value(bytes: Seq<u8>, at: int) -> nat {
    be_u64(bytes, at) * pow192() + be_u64(bytes, at + 8) * pow128() + be_u64(bytes, at + 16)
        * pow64() + be_u64(bytes, at + 24)
}

/// Whether the word with index `index` lies wholly inside `len` bytes.
pub open spec fn has_word(len: nat, index: nat) -> bool {
    32 * index + 32 <= len
}

/// The eight bytes from `at` as a number, most significant byte first.
fn read_u64(data: &Vec<u8>, at: usize) -> (r: u64)
    requires
        at + 8 <= data.len(),
    ensures
        r == be_u64(data@, at as int),
{
    (data[at] as u64) * 0x100_0000_0000_0000 + (data[at + 1] as u64) * 0x1_0000_0000_0000 + (
    data[at + 2] as u64) * 0x100_0000_0000 + (data[at + 3] as u64) * 0x1_0000_0000 + (data[at
        + 4] as u64) * 0x100_0000 + (data[at + 5] as u64) * 0x1_0000 + (data[at + 6] as u64)
        * 0x100 + (data[at + 7] as u64)
}

/// The word with index `index`, if `data` holds it whole.
pub fn read_word(data: &Vec<u8>, index: usize) -> (r: Option<U256>)
    ensures
        match r {
            Some(word) => has_word(data@.len(), index as nat) && word@ == word_value(
                data@,
                32 * index,
            ),
            None => !has_word(data@.len(), index as nat),
        },
{
    if index >= data.len() / 32 {
        return None;
    }
    let at: usize = index * 32;
    let l3 = read_u64(data, at);
    let l2 = read_u64(data, at + 8);
    let l1 = read_u64(data, at + 16);
    let l0 = read_u64(data, at + 24);
    Some(U256([l0, l1, l2, l3]))
}

/// The address in the low twenty bytes of the word with index `index`, if
/// `data` holds the word whole.
pub fn read_address(data: &Vec<u8>, index: usize) -> (r: Option<H160>)
    ensures
        match r {
            Some(address) => has_word(data@.len(), index as nat) && address@ == data@.subrange(
                32 * index + 12,
                32 * index + 32,
            ),
            None => !has_word(data@.len(), index as nat),
        },
{
    if index >= data.len() / 32 {
        return None;
    }
    let at: usize = index * 32 + 12;
    let mut bytes = [0u8; 20];
    let mut i: usize = 0;
    while i < 20
        invariant
            i <= 20,
            at + 20 <= data.len(),
            forall|j: int| 0 <= j < i ==> bytes@[j] == data@[at + j],
        decreases 20 - i,
    {
        bytes[i] = data[at + i];
        i += 1;
    }
    let address = H160(bytes);
    assert(address@ =~= data@.subrange(32 * index + 12, 32 * index + 32));
    Some(address)
}

/// The eight bytes that stand for `limb`, most significant byte first.
pub open spec fn be_bytes_u64(limb: u64) -> Seq<u8> {
    seq![
        (limb / 0x100_0000_0000_0000) as u8,
        (limb / 0x1_0000_0000_0000 % 0x100) as u8,
        (limb / 0x100_0000_0000 % 0x100) as u8,
        (limb / 0x1_0000_0000 % 0x100) as u8,
        (limb / 0x100_0000 % 0x100) as u8,
        (limb / 0x1_0000 % 0x100) as u8,
        (limb / 0x100 % 0x100) as u8,
        (limb % 0x100) as u8,
    ]
}

/// The 32 bytes that stand for the number with the given limbs, most
/// significant byte first.
pub open spec fn limbs_bytes(l3: u64, l2: u64, l1: u64, l0: u64) -> Seq<u8> {
    be_bytes_u64(l3) + be_bytes_u64(l2) + be_bytes_u64(l1) + be_bytes_u64(l0)
}

/// The 32 bytes that stand for `word`, most significant byte first.
pub open spec fn word_bytes(word: U256) -> Seq<u8> {
    limbs_bytes(word.0[3], word.0[2], word.0[1], word.0[0])
}

/// The bytes of a length, as a word.
pub open spec fn length_bytes(len: nat) -> Seq<u8> {
    limbs_bytes(0, 0, 0, len as u64)
}

/// The 32 bytes that stand for a flag: one for `true`, zero for `false`.
pub open spec fn flag_bytes(flag: bool) -> Seq<u8> {
    limbs_bytes(
        0,
        0,
        0,
        if flag {
            1
        } else {
            0
        },
    )
}

/// The 32 bytes that stand for an address: twelve zero bytes, then the address.
pub open spec fn address_bytes(address: Seq<u8>) -> Seq<u8> {
    Seq::new(12, |i: int| 0u8) + address
}

/// The zero bytes that fill `len` bytes up to a whole number of words.
pub open spec fn padding(len: nat) -> Seq<u8> {
    Seq::new(((32 - len % 32) % 32) as nat, |i: int| 0u8)
}

/// Appends the eight bytes of `limb`.
fn push_u64(out: &mut Vec<u8>, limb: u64)
    ensures
        final(out)@ == old(out)@ + be_bytes_u64(limb),
{
    out.push((limb / 0x100_0000_0000_0000) as u8);
    out.push((limb / 0x1_0000_0000_0000 % 0x100) as u8);
    out.push((limb / 0x100_0000_0000 % 0x100) as u8);
    out.push((limb / 0x1_0000_0000 % 0x100) as u8);
    out.push((limb / 0x100_0000 % 0x100) as u8);
    out.push((limb / 0x1_0000 % 0x100) as u8);
    out.push((limb / 0x100 % 0x100) as u8);
    out.push((limb % 0x100) as u8);
    assert(out@ =~= old(out)@ + be_bytes_u64(limb));
}

/// Appends the 32 bytes of the number with the given limbs.
fn push_limbs(out: &mut Vec<u8>, l3: u64, l2: u64, l1: u64, l0: u64)
    ensures
        final(out)@ == old(out)@ + limbs_bytes(l3, l2, l1, l0),
{
    push_u64(out, l3);
    push_u64(out, l2);
    push_u64(out, l1);
    push_u64(out, l0);
    assert(out@ =~= old(out)@ + limbs_bytes(l3, l2, l1, l0));
}

/// Appends `word` as 32 bytes, most significant byte first.
pub fn push_word(out: &mut Vec<u8>, word: U256)
    ensures
        final(out)@ == old(out)@ + word_bytes(word),
{
    push_limbs(out, word.0[3], word.0[2], word.0[1], word.0[0]);
}

/// Appends `address` as a word.
pub fn push_address(out: &mut Vec<u8>, address: &H160)
    ensures
        final(out)@ == old(out)@ + address_bytes(address@),
{
    let mut i: usize = 0;
    while i < 12
        invariant
            i <= 12,
            out@ =~= old(out)@ + Seq::new(i as nat, |j: int| 0u8),
        decreases 12 - i,
    {
        out.push(0);
        i += 1;
    }
    let mut i: usize = 0;
    while i < 20
        invariant
            i <= 20,
            out@ =~= old(out)@ + Seq::new(12, |j: int| 0u8) + address@.subrange(0, i as int),
        decreases 20 - i,
    {
        out.push(address.0[i]);
        i += 1;
    }
    assert(address@.subrange(0, 20) =~= address@);
    assert(out@ =~= old(out)@ + address_bytes(address@));
}

/// Appends `bytes` behind their length, filled up with zero bytes to a whole
/// number of words.
pub fn push_bytes(out: &mut Vec<u8>, bytes: &Vec<u8>)
    ensures
        final(out)@ == old(out)@ + length_bytes(bytes@.len()) + bytes@ + padding(bytes@.len()),
{
    let len = bytes.len();
    push_limbs(out, 0, 0, 0, len as u64);
    let ghost head = out@;
    let mut i: usize = 0;
    while i < len
        invariant
            i <= len,
            len == bytes@.len(),
            out@ =~= head + bytes@.subrange(0, i as int),
        decreases len - i,
    {
        out.push(bytes[i]);
        i += 1;
    }
    assert(bytes@.subrange(0, len as int) =~= bytes@);
    let ghost body = out@;
    let fill: usize = (32 - len % 32) % 32;
    let mut i: usize = 0;
    while i < fill
        invariant
            i <= fill,
            out@ =~= body + Seq::new(i as nat, |j: int| 0u8),
        decreases fill - i,
    {
        out.push(0);
        i += 1;
    }
    assert(out@ =~= old(out)@ + length_bytes(bytes@.len()) + bytes@ + padding(bytes@.len()));
}

/// The four bytes that select the pool's `swap` function.
pub open spec fn swap_selector() -> Seq<u8> {
    seq![0x12u8, 0x8au8, 0xcbu8, 0x08u8]
}

/// The call data of a swap: the selector, then the recipient, the direction,
/// the amount, the price limit and the place of the callback data as words,
/// then the callback data behind its length.
pub open spec fn swap_call_bytes(
    recipient: Seq<u8>,
    zero_for_one: bool,
    amount_specified: U256,
    sqrt_price_limit: U256,
    calldata: Seq<u8>,
) -> Seq<u8> {
    swap_selector() + address_bytes(recipient) + flag_bytes(zero_for_one) + word_bytes(
        amount_specified,
    ) + word_bytes(sqrt_price_limit) + length_bytes(160) + length_bytes(calldata.len())
        + calldata + padding(calldata.len())
}

/// Encodes a call of the pool's `swap` function.
pub fn encode_swap_call(
    recipient: &H160,
    zero_for_one: bool,
    amount_specified: U256,
    sqrt_price_limit: U256,
    calldata: &Vec<u8>,
) -> (out: Vec<u8>)
    ensures
        out@ == swap_call_bytes(
            recipient@,
            zero_for_one,
            amount_specified,
            sqrt_price_limit,
            calldata@,
        ),
{
    let mut out: Vec<u8> = Vec::new();
    out.push(0x12);
    out.push(0x8a);
    out.push(0xcb);
    out.push(0x08);
    assert(out@ =~= swap_selector());
    push_address(&mut out, recipient);
    push_limbs(
        &mut out,
        0,
        0,
        0,
        if zero_for_one {
            1
        } else {
            0
        },
    );
    push_word(&mut out, amount_specified);
    push_word(&mut out, sqrt_price_limit);
    push_limbs(&mut out, 0, 0, 0, 160);
    push_bytes(&mut out, calldata);
    assert(out@ =~= swap_call_bytes(
        recipient@,
        zero_for_one,
        amount_specified,
        sqrt_price_limit,
        calldata@,
    ));
    out
}

/// Reading a word back from its bytes gives the word.
pub proof fn lemma_word_round_trip(word: U256)
    ensures
        word_bytes(word).len() == 32,
        word_value(word_bytes(word), 0) == word@,
{
    let bytes = word_bytes(word);
    lemma_u64_round_trip(word.0[3]);
    lemma_u64_round_trip(word.0[2]);
    lemma_u64_round_trip(word.0[1]);
    lemma_u64_round_trip(word.0[0]);
    assert(be_u64(bytes, 0) == be_u64(be_bytes_u64(word.0[3]), 0));
    assert(be_u64(bytes, 8) == be_u64(be_bytes_u64(word.0[2]), 0));
    assert(be_u64(bytes, 16) == be_u64(be_bytes_u64(word.0[1]), 0));
    assert(be_u64(bytes, 24) == be_u64(be_bytes_u64(word.0[0]), 0));
}

/// Reading eight bytes back gives the limb they were made from.
proof fn lemma_u64_round_trip(limb: u64)
    ensures
        be_bytes_u64(limb).len() == 8,
        be_u64(be_bytes_u64(limb), 0) == limb,
{
    assert(limb == (limb / 0x100_0000_0000_0000) * 0x100_0000_0000_0000 + (limb
        / 0x1_0000_0000_0000 % 0x100) * 0x1_0000_0000_0000 + (limb / 0x100_0000_0000 % 0x100)
        * 0x100_0000_0000 + (limb / 0x1_0000_0000 % 0x100) * 0x1_0000_0000 + (limb / 0x100_0000
        % 0x100) * 0x100_0000 + (limb / 0x1_0000 % 0x100) * 0x1_0000 + (limb / 0x100 % 0x100)
        * 0x100 + (limb % 0x100)) by (bit_vector);
    assert(limb / 0x100_0000_0000_0000 < 0x100) by (bit_vector);
}

} // verus!
