//! Order-preserving integer keys for IEEE-754 double bit patterns.
//!
//! A key keeps the bits of a non-negative value as they are and maps a
//! negative value with magnitude bits `m` to `-1 - m`, so keys compare as
//! the values they encode do (with `-0.0` just below `+0.0`).
use vstd::prelude::*;

verus! {

/// The sign bit of a double's bit pattern.
pub const SIGN_BIT: u64 = 0x8000_0000_0000_0000;

/// The key of the bit pattern `b`.
pub open spec fn key_of(b: u64) -> int {
    if b < SIGN_BIT {
        b as int
    } else {
        -1 - (b - SIGN_BIT)
    }
}

/// The bit pattern whose key is `k`.
pub open spec fn bits_of(k: i64) -> int {
    if k >= 0 {
        k as int
    } else {
        SIGN_BIT + (-1 - k)
    }
}

/// The order key of the bit pattern `b`.
pub fn order_key(b: u64) -> (r: i64)
    ensures
        r as int == key_of(b),
{
    if b < SIGN_BIT {
        b as i64
    } else {
        let m = b - SIGN_BIT;
        -1 - (m as i64)
    }
}

/// The bit pattern that the order key `k` stands for.
pub fn key_bits(k: i64) -> (r: u64)
    ensures
        r as int == bits_of(k),
{
    if k >= 0 {
        k as u64
    } else {
        let m = (-1 - k) as u64;
        SIGN_BIT + m
    }
}

/// A key turns back into the bit pattern it was made from.
pub proof fn lemma_key_round_trip(b: u64)
    ensures
        bits_of(key_of(b) as i64) == b,
{
}

/// Keys of non-negative values keep the order of the bit patterns, keys of
/// negative values reverse it, and every negative value's key lies below
/// every non-negative value's key.
pub proof fn lemma_key_order(a: u64, b: u64)
    ensures
        a < SIGN_BIT && b < SIGN_BIT ==> (key_of(a) < key_of(b) <==> a < b),
        a >= SIGN_BIT && b >= SIGN_BIT ==> (key_of(a) < key_of(b) <==> b < a),
        a >= SIGN_BIT && b < SIGN_BIT ==> key_of(a) < key_of(b),
{
}

} // verus!
