//! Conversation keys: one 128-bit key per unordered pair of users, so that
//! both directions of a conversation share one counter.

use vstd::prelude::*;
use crate::wire::{be64, from_be64, get_be64, put_be64, lemma_be64_roundtrip};

verus! {

/// Number of bytes of a key on the wire and on disk.
pub const KEY_LEN: usize = 16;

/// The smaller of two user ids.
pub open spec fn low(a: u64, b: u64) -> u64 {
    if a <= b {
        a
    } else {
        b
    }
}

/// The larger of two user ids.
pub open spec fn high(a: u64, b: u64) -> u64 {
    if a <= b {
        b
    } else {
        a
    }
}

/// The key of the conversation between `a` and `b`: the smaller id in the
/// upper 64 bits, the larger in the lower 64 bits.
pub open spec fn spec_key(a: u64, b: u64) -> u128 {
    (low(a, b) as int * 0x1_0000_0000_0000_0000 + high(a, b) as int) as u128
}

/// The upper half of a key: the smaller user id.
pub open spec fn key_low(k: u128) -> u64 {
    (k / 0x1_0000_0000_0000_0000) as u64
}

/// The lower half of a key: the larger user id.
pub open spec fn key_high(k: u128) -> u64 {
    (k % 0x1_0000_0000_0000_0000) as u64
}

/// The sixteen bytes of a key: the smaller id, then the larger, each
/// big-endian.
pub open spec fn key_bytes(k: u128) -> Seq<u8> {
    be64(key_low(k)) + be64(key_high(k))
}

/// The key whose sixteen bytes start at `at`.
pub open spec fn key_from_bytes(s: Seq<u8>, at: int) -> u128 {
    (from_be64(s, at) as int * 0x1_0000_0000_0000_0000 + from_be64(s, at + 8) as int) as u128
}

/// The key does not depend on the order of the two users.
pub proof fn lemma_key_symmetric(a: u64, b: u64)
    ensures
        spec_key(a, b) == spec_key(b, a),
{
}

/// The key holds both users: two pairs with one key are the same pair.
pub proof fn lemma_key_injective(a: u64, b: u64, c: u64, d: u64)
    requires
        spec_key(a, b) == spec_key(c, d),
    ensures
        low(a, b) == low(c, d),
        high(a, b) == high(c, d),
{
    lemma_key_halves(a, b);
    lemma_key_halves(c, d);
}

/// The halves of a key are the two users, smaller first.
pub proof fn lemma_key_halves(a: u64, b: u64)
    ensures
        key_low(spec_key(a, b)) == low(a, b),
        key_high(spec_key(a, b)) == high(a, b),
{
}

/// Reading back the bytes of a key gives the key.
pub proof fn lemma_key_bytes_roundtrip(k: u128)
    ensures
        key_bytes(k).len() == KEY_LEN,
        key_from_bytes(key_bytes(k), 0) == k,
{
    let s = key_bytes(k);
    lemma_be64_roundtrip(key_low(k));
    lemma_be64_roundtrip(key_high(k));
    assert(from_be64(s, 0) == from_be64(be64(key_low(k)), 0));
    assert(from_be64(s, 8) == from_be64(be64(key_high(k)), 0));
}

/// The key of the conversation between `a` and `b`.
pub fn key(a: u64, b: u64) -> (k: u128)
    ensures
        k == spec_key(a, b),
{
    if a <= b {
        (a as u128) * 0x1_0000_0000_0000_0000 + (b as u128)
    } else {
        (b as u128) * 0x1_0000_0000_0000_0000 + (a as u128)
    }
}

/// Appends the sixteen bytes of `k` to `out`.
pub fn put_key(out: &mut Vec<u8>, k: u128)
    ensures
        final(out)@ == old(out)@ + key_bytes(k),
{
    let lo: u64 = (k / 0x1_0000_0000_0000_0000) as u64;
    let hi: u64 = (k % 0x1_0000_0000_0000_0000) as u64;
    put_be64(out, lo);
    put_be64(out, hi);
    assert(out@ =~= old(out)@ + key_bytes(k));
}

/// Reads the key whose sixteen bytes start at `at`.
pub fn get_key(bytes: &[u8], at: usize) -> (k: u128)
    requires
        at + KEY_LEN <= bytes@.len(),
    ensures
        k == key_from_bytes(bytes@, at as int),
{
    assert(at + 8 <= bytes.len());
    let lo: u64 = get_be64(bytes, at);
    let hi: u64 = get_be64(bytes, at + 8);
    (lo as u128) * 0x1_0000_0000_0000_0000 + (hi as u128)
}

} // verus!
