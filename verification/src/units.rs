//! Rounded division and the conversions from raw sectors / bytes to
//! gigabyte texts' fixed-point values.
//!
//! Drive and partition sizes arrive as 512-byte sector counts; usage arrives
//! in bytes. The display shows gigabytes (`2^30` bytes) with one or two
//! decimal places, so the conversions here produce tenths and hundredths of
//! a gigabyte, rounded to nearest with halves away from zero.

use vstd::prelude::*;
use vstd::arithmetic::div_mod::{
    lemma_div_is_ordered, lemma_div_nonincreasing, lemma_fundamental_div_mod,
    lemma_fundamental_div_mod_converse,
};
use vstd::arithmetic::mul::lemma_mul_inequality;

verus! {

/// Bytes in one gigabyte.
pub const GIB: u64 = 1073741824;

/// `num / den` rounded to nearest, halves rounded up (away from zero for
/// the non-negative values used here).
pub open spec fn round_div(num: int, den: int) -> int
    recommends
        num >= 0,
        den >= 1,
{
    (num * 2 + den) / (den * 2)
}

/// Rounding to nearest equals truncating division plus one exactly when the
/// remainder is at least half the divisor.
pub proof fn lemma_round_div_parts(num: int, den: int)
    requires
        num >= 0,
        den >= 1,
    ensures
        round_div(num, den) == num / den + if 2 * (num % den) >= den {
            1int
        } else {
            0int
        },
{
    let q = num / den;
    let r = num % den;
    lemma_fundamental_div_mod(num, den);
    assert(num == den * q + r);
    if 2 * r >= den {
        assert(num * 2 + den == (q + 1) * (den * 2) + (2 * r - den)) by (nonlinear_arith)
            requires
                num == den * q + r,
        ;
        lemma_fundamental_div_mod_converse(num * 2 + den, den * 2, q + 1, 2 * r - den);
    } else {
        assert(num * 2 + den == q * (den * 2) + (2 * r + den)) by (nonlinear_arith)
            requires
                num == den * q + r,
        ;
        lemma_fundamental_div_mod_converse(num * 2 + den, den * 2, q, 2 * r + den);
    }
}

/// Rounded division does not decrease when the numerator grows.
pub proof fn lemma_round_div_ordered(num1: int, num2: int, den: int)
    requires
        0 <= num1 <= num2,
        den >= 1,
    ensures
        round_div(num1, den) <= round_div(num2, den),
{
    lemma_div_is_ordered(num1 * 2 + den, num2 * 2 + den, den * 2);
}

/// An upper bound on the quotient: if the numerator is below `bound` times
/// the divisor, the rounded quotient is at most `bound`.
pub proof fn lemma_round_div_bound(num: int, den: int, bound: int)
    requires
        0 <= num,
        den >= 1,
        bound >= 0,
        num < bound * den,
    ensures
        round_div(num, den) <= bound,
{
    assert(num * 2 + den <= bound * (den * 2) + (den * 2 - 1)) by (nonlinear_arith)
        requires
            num < bound * den,
            den >= 1,
    ;
    assert((bound * (den * 2) + (den * 2 - 1)) / (den * 2) == bound) by {
        lemma_fundamental_div_mod_converse(
            bound * (den * 2) + (den * 2 - 1),
            den * 2,
            bound,
            den * 2 - 1,
        );
    }
    lemma_div_is_ordered(num * 2 + den, bound * (den * 2) + (den * 2 - 1), den * 2);
}

/// Executable rounded division for the wide intermediate products.
pub(crate) fn round_div_u128(num: u128, den: u128) -> (r: u128)
    requires
        den >= 1,
        num <= u128::MAX - den,
    ensures
        r == round_div(num as int, den as int),
{
    let q: u128 = num / den;
    let rem: u128 = num % den;
    proof {
        lemma_round_div_parts(num as int, den as int);
        lemma_div_is_ordered(num as int, u128::MAX - den, den as int);
        lemma_div_nonincreasing(u128::MAX - den, den as int);
    }
    if rem >= den - rem {
        q + 1
    } else {
        q
    }
}

/// Hundredths of a gigabyte in a count of 512-byte sectors:
/// `round(sectors * 512 * 100 / 2^30)`.
pub open spec fn sectors_gb_hundredths_spec(sectors: int) -> int {
    round_div(sectors * 51200, GIB as int)
}

/// Tenths of a gigabyte in a count of 512-byte sectors:
/// `round(sectors * 512 * 10 / 2^30)`.
pub open spec fn sectors_gb_tenths_spec(sectors: int) -> int {
    round_div(sectors * 5120, GIB as int)
}

/// Tenths of a gigabyte in a byte count: `round(bytes * 10 / 2^30)`.
pub open spec fn bytes_gb_tenths_spec(bytes: int) -> int {
    round_div(bytes * 10, GIB as int)
}

/// The two size conversions agree: a sector count converted directly gives
/// the same tenths as its byte count converted as bytes.
pub proof fn lemma_sector_byte_tenths_agree(sectors: int)
    requires
        sectors >= 0,
    ensures
        sectors_gb_tenths_spec(sectors) == bytes_gb_tenths_spec(sectors * 512),
{
    assert(sectors * 5120 == (sectors * 512) * 10) by (nonlinear_arith);
}

/// Sector-to-gigabyte conversion is monotonic.
pub proof fn lemma_sectors_gb_hundredths_monotonic(a: int, b: int)
    requires
        0 <= a <= b,
    ensures
        sectors_gb_hundredths_spec(a) <= sectors_gb_hundredths_spec(b),
{
    lemma_mul_inequality(a, b, 51200);
    lemma_round_div_ordered(a * 51200, b * 51200, GIB as int);
}

/// Byte-to-gigabyte conversion is monotonic.
pub proof fn lemma_bytes_gb_tenths_monotonic(a: int, b: int)
    requires
        0 <= a <= b,
    ensures
        bytes_gb_tenths_spec(a) <= bytes_gb_tenths_spec(b),
{
    lemma_mul_inequality(a, b, 10);
    lemma_round_div_ordered(a * 10, b * 10, GIB as int);
}

/// Sector count of a drive, as hundredths of a gigabyte.
pub fn sectors_gb_hundredths(sectors: u64) -> (r: u64)
    ensures
        r == sectors_gb_hundredths_spec(sectors as int),
{
    let num: u128 = (sectors as u128) * 51200;
    let q: u128 = round_div_u128(num, GIB as u128);
    proof {
        assert((num as int) < 0x4_0000_0000_0000int * (GIB as int)) by (nonlinear_arith)
            requires
                num <= 0xFFFF_FFFF_FFFF_FFFFu64 as int * 51200,
        ;
        lemma_round_div_bound(num as int, GIB as int, 0x4_0000_0000_0000int);
    }
    q as u64
}

/// Sector count of a partition, as tenths of a gigabyte.
pub fn sectors_gb_tenths(sectors: u64) -> (r: u64)
    ensures
        r == sectors_gb_tenths_spec(sectors as int),
{
    let num: u128 = (sectors as u128) * 5120;
    let q: u128 = round_div_u128(num, GIB as u128);
    proof {
        assert((num as int) < 0x4_0000_0000_0000int * (GIB as int)) by (nonlinear_arith)
            requires
                num <= 0xFFFF_FFFF_FFFF_FFFFu64 as int * 5120,
        ;
        lemma_round_div_bound(num as int, GIB as int, 0x4_0000_0000_0000int);
    }
    q as u64
}

/// A byte count of used space, as tenths of a gigabyte.
pub fn bytes_gb_tenths(bytes: u64) -> (r: u64)
    ensures
        r == bytes_gb_tenths_spec(bytes as int),
{
    let num: u128 = (bytes as u128) * 10;
    let q: u128 = round_div_u128(num, GIB as u128);
    proof {
        assert((num as int) < 0x4_0000_0000_0000int * (GIB as int)) by (nonlinear_arith)
            requires
                num <= 0xFFFF_FFFF_FFFF_FFFFu64 as int * 10,
        ;
        lemma_round_div_bound(num as int, GIB as int, 0x4_0000_0000_0000int);
    }
    q as u64
}

} // verus!
