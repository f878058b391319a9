//! Order keys for real quantities.
//!
//! The model core compares temperatures, heights and coordinates but never
//! does arithmetic on them. A real quantity therefore reaches the core as an
//! order key: a signed integer that is smaller for the smaller quantity.
//! The key is read off the IEEE-754 binary64 bit pattern of the quantity,
//! which stores a sign bit above a magnitude that grows with the absolute
//! value. Patterns that are not numbers have no key.

use vstd::prelude::*;

verus! {

/// The sign bit of a binary64 bit pattern.
pub const SIGN_BIT: u64 = 0x8000_0000_0000_0000;

/// The magnitude bits of infinity; every larger magnitude is not a number.
pub const INFINITY_BITS: u64 = 0x7ff0_0000_0000_0000;

/// Key of zero, the threshold of all sign tests.
pub const ZERO_KEY: i64 = 0;

/// The bit pattern without its sign bit.
pub open spec fn magnitude(bits: u64) -> int {
    if bits >= SIGN_BIT {
        bits - SIGN_BIT
    } else {
        bits as int
    }
}

/// The bit pattern stands for a number, finite or infinite.
pub open spec fn is_number(bits: u64) -> bool {
    magnitude(bits) <= INFINITY_BITS
}

/// The order key of a bit pattern: its magnitude, negated under a set sign
/// bit. Both zeros share the key zero.
pub open spec fn key_of(bits: u64) -> int {
    if bits >= SIGN_BIT {
        -magnitude(bits)
    } else {
        magnitude(bits)
    }
}

/// Computes the order key of a binary64 bit pattern, or `None` for a pattern
/// that is not a number.
pub fn order_key(bits: u64) -> (key: Option<i64>)
    ensures
        is_number(bits) ==> key == Some(key_of(bits) as i64),
        !is_number(bits) ==> key.is_none(),
        key matches Some(k) ==> k == key_of(bits),
{
    if bits >= SIGN_BIT {
        let m: u64 = bits - SIGN_BIT;
        if m > INFINITY_BITS {
            None
        } else {
            Some(-(m as i64))
        }
    } else if bits > INFINITY_BITS {
        None
    } else {
        Some(bits as i64)
    }
}

/// Keys order numbers by sign first and by magnitude within a sign: a
/// number with the sign bit set never has the larger key, among numbers
/// without it the larger magnitude has the larger key, and among numbers with
/// it the smaller magnitude has.
pub proof fn lemma_key_order(a: u64, b: u64)
    requires
        is_number(a),
        is_number(b),
    ensures
        a >= SIGN_BIT && b < SIGN_BIT ==> key_of(a) <= key_of(b),
        a < SIGN_BIT && b < SIGN_BIT ==> (key_of(a) < key_of(b) <==> magnitude(a) < magnitude(b)),
        a >= SIGN_BIT && b >= SIGN_BIT ==> (key_of(a) < key_of(b) <==> magnitude(a) > magnitude(
            b,
        )),
        key_of(a) == key_of(b) <==> (a == b || (magnitude(a) == 0 && magnitude(b) == 0)),
{
}

} // verus!
