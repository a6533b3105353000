//! Ordering of IEEE-754 binary64 values, read from their bit patterns.
//!
//! Measurements such as anomaly scores travel through the library as the
//! 64-bit pattern of a binary64 number. Comparing two such values needs no
//! arithmetic: apart from NaN, the numeric order is the order of the
//! sign-magnitude integers that the patterns encode.

use vstd::prelude::*;

verus! {

/// The sign bit of a binary64 pattern.
pub const SIGN_BIT: u64 = 0x8000_0000_0000_0000;

/// The pattern of positive infinity; magnitudes above it are NaN.
pub const INFINITY_BITS: u64 = 0x7FF0_0000_0000_0000;

/// The magnitude part of a pattern: everything but the sign bit.
pub open spec fn magnitude(bits: u64) -> int {
    (bits % SIGN_BIT) as int
}

/// The pattern has its sign bit set.
pub open spec fn sign_set(bits: u64) -> bool {
    bits >= SIGN_BIT
}

/// The pattern encodes a NaN: all exponent bits set and a nonzero fraction.
pub open spec fn is_nan(bits: u64) -> bool {
    magnitude(bits) > INFINITY_BITS
}

/// An integer that orders non-NaN patterns as their numbers are ordered;
/// both zeros map to 0.
pub open spec fn order_key(bits: u64) -> int {
    if sign_set(bits) {
        -magnitude(bits)
    } else {
        magnitude(bits)
    }
}

/// `a >= b` on the binary64 numbers that the two patterns encode.
/// Any comparison with a NaN is false.
pub open spec fn spec_ge(a: u64, b: u64) -> bool {
    !is_nan(a) && !is_nan(b) && order_key(a) >= order_key(b)
}

/// `a >= b` on the binary64 numbers that the two patterns encode.
pub fn ge(a: u64, b: u64) -> (r: bool)
    ensures
        r == spec_ge(a, b),
{
    let ma = a % SIGN_BIT;
    let mb = b % SIGN_BIT;
    if ma > INFINITY_BITS || mb > INFINITY_BITS {
        return false;
    }
    let na = a >= SIGN_BIT;
    let nb = b >= SIGN_BIT;
    if !na && !nb {
        ma >= mb
    } else if !na && nb {
        true
    } else if na && !nb {
        ma == 0 && mb == 0
    } else {
        ma <= mb
    }
}

/// `>=` is transitive on the encoded numbers.
pub proof fn lemma_ge_transitive(a: u64, b: u64, c: u64)
    requires
        spec_ge(a, b),
        spec_ge(b, c),
    ensures
        spec_ge(a, c),
{
}

/// `>=` is reflexive on every pattern that is not NaN.
pub proof fn lemma_ge_reflexive(a: u64)
    requires
        !is_nan(a),
    ensures
        spec_ge(a, a),
{
}

} // verus!
