//! Floating-point numbers as bit patterns.
//!
//! A number is held as the integer that carries its IEEE 754 binary32 or
//! binary64 encoding. Two patterns are ranked by the number they encode, with
//! two adjustments that turn the comparison into a total order: the two zeros
//! rank alike, and every NaN ranks alike and above every number.

use vstd::prelude::*;

verus! {

/// The sign bit of a binary32 pattern.
pub const SINGLE_SIGN: u32 = 0x8000_0000;

/// The pattern of positive infinity in binary32; larger magnitudes are NaN.
pub const SINGLE_INFINITY: u32 = 0x7f80_0000;

/// The pattern every binary32 NaN is reduced to before it is hashed.
pub const SINGLE_NAN: u32 = 0x7fc0_0000;

/// The sign bit of a binary64 pattern.
pub const DOUBLE_SIGN: u64 = 0x8000_0000_0000_0000;

/// The pattern of positive infinity in binary64; larger magnitudes are NaN.
pub const DOUBLE_INFINITY: u64 = 0x7ff0_0000_0000_0000;

/// The pattern every binary64 NaN is reduced to before it is hashed.
pub const DOUBLE_NAN: u64 = 0x7ff8_0000_0000_0000;

/// The pattern with its sign bit cleared.
pub open spec fn single_magnitude(bits: u32) -> int {
    if bits >= SINGLE_SIGN {
        bits - SINGLE_SIGN
    } else {
        bits as int
    }
}

/// Whether the pattern encodes a NaN: exponent all ones, mantissa not zero.
pub open spec fn single_is_nan(bits: u32) -> bool {
    single_magnitude(bits) > SINGLE_INFINITY
}

/// The rank of a binary32 pattern. Patterns compare as their ranks do.
///
/// A number ranks as its magnitude, negated when the sign bit is set, so both
/// zeros rank 0 and the order of ranks is the order of the numbers. A NaN
/// ranks one above positive infinity, whatever its sign and payload.
pub open spec fn single_rank(bits: u32) -> int {
    let magnitude = single_magnitude(bits);
    if magnitude > SINGLE_INFINITY {
        SINGLE_INFINITY + 1
    } else if bits >= SINGLE_SIGN {
        -magnitude
    } else {
        magnitude
    }
}

/// The one pattern that stands for all patterns of the same rank: negative
/// zero becomes positive zero, a NaN becomes the quiet NaN without payload,
/// and every other pattern stands for itself.
pub open spec fn single_canonical(bits: u32) -> u32 {
    if single_is_nan(bits) {
        SINGLE_NAN
    } else if bits == SINGLE_SIGN {
        0
    } else {
        bits
    }
}

/// The pattern with its sign bit cleared.
pub open spec fn double_magnitude(bits: u64) -> int {
    if bits >= DOUBLE_SIGN {
        bits - DOUBLE_SIGN
    } else {
        bits as int
    }
}

/// Whether the pattern encodes a NaN: exponent all ones, mantissa not zero.
pub open spec fn double_is_nan(bits: u64) -> bool {
    double_magnitude(bits) > DOUBLE_INFINITY
}

/// The rank of a binary64 pattern, built as [`single_rank`] is.
pub open spec fn double_rank(bits: u64) -> int {
    let magnitude = double_magnitude(bits);
    if magnitude > DOUBLE_INFINITY {
        DOUBLE_INFINITY + 1
    } else if bits >= DOUBLE_SIGN {
        -magnitude
    } else {
        magnitude
    }
}

/// The one pattern that stands for all patterns of the same rank, as
/// [`single_canonical`] does for binary32.
pub open spec fn double_canonical(bits: u64) -> u64 {
    if double_is_nan(bits) {
        DOUBLE_NAN
    } else if bits == DOUBLE_SIGN {
        0
    } else {
        bits
    }
}

/// Computes the rank of a binary32 pattern.
pub fn rank_single(bits: u32) -> (rank: i64)
    ensures
        rank == single_rank(bits),
{
    let negative = bits >= SINGLE_SIGN;
    let magnitude: u32 = if negative {
        bits - SINGLE_SIGN
    } else {
        bits
    };
    if magnitude > SINGLE_INFINITY {
        SINGLE_INFINITY as i64 + 1
    } else if negative {
        -(magnitude as i64)
    } else {
        magnitude as i64
    }
}

/// Computes the rank of a binary64 pattern.
pub fn rank_double(bits: u64) -> (rank: i128)
    ensures
        rank == double_rank(bits),
{
    let negative = bits >= DOUBLE_SIGN;
    let magnitude: u64 = if negative {
        bits - DOUBLE_SIGN
    } else {
        bits
    };
    if magnitude > DOUBLE_INFINITY {
        DOUBLE_INFINITY as i128 + 1
    } else if negative {
        -(magnitude as i128)
    } else {
        magnitude as i128
    }
}

/// Reduces a binary32 pattern to the one that stands for its rank.
pub fn canonical_single(bits: u32) -> (canonical: u32)
    ensures
        canonical == single_canonical(bits),
{
    let magnitude: u32 = if bits >= SINGLE_SIGN {
        bits - SINGLE_SIGN
    } else {
        bits
    };
    if magnitude > SINGLE_INFINITY {
        SINGLE_NAN
    } else if bits == SINGLE_SIGN {
        0
    } else {
        bits
    }
}

/// Reduces a binary64 pattern to the one that stands for its rank.
pub fn canonical_double(bits: u64) -> (canonical: u64)
    ensures
        canonical == double_canonical(bits),
{
    let magnitude: u64 = if bits >= DOUBLE_SIGN {
        bits - DOUBLE_SIGN
    } else {
        bits
    };
    if magnitude > DOUBLE_INFINITY {
        DOUBLE_NAN
    } else if bits == DOUBLE_SIGN {
        0
    } else {
        bits
    }
}

/// Two binary32 patterns have the same rank exactly when they reduce to the
/// same canonical pattern.
pub proof fn single_rank_matches_canonical(a: u32, b: u32)
    ensures
        single_rank(a) == single_rank(b) <==> single_canonical(a) == single_canonical(b),
{
}

/// Two binary64 patterns have the same rank exactly when they reduce to the
/// same canonical pattern.
pub proof fn double_rank_matches_canonical(a: u64, b: u64)
    ensures
        double_rank(a) == double_rank(b) <==> double_canonical(a) == double_canonical(b),
{
}

} // verus!
