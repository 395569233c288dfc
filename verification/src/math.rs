//! WAD-scaled (1e18) fixed-point arithmetic with half-up rounding.
//!
//! Products of two 128-bit values are computed through a 256-bit
//! intermediate held as a pair of 128-bit limbs, so the final division is
//! exact; an operation fails only when its mathematical result does not fit
//! in 128 bits.

use vstd::prelude::*;
use vstd::arithmetic::div_mod::{
    lemma_fundamental_div_mod, lemma_fundamental_div_mod_converse_div,
};
use vstd::arithmetic::mul::{lemma_mul_inequality, lemma_mul_upper_bound};

use crate::errors::Error;

verus! {

/// Fixed-point scale factor: 10^18 stands for the value 1.0.
pub const WAD_U128: u128 = 1_000_000_000_000_000_000;

/// Half of the scale factor, the tie-breaking addend of half-up rounding.
pub const HALF_WAD_U128: u128 = 500_000_000_000_000_000;

/// 2^64, the limb base of the wide multiplication.
pub const LIMB_U128: u128 = 0x1_0000_0000_0000_0000;

/// 2^128 as a mathematical integer: the first value that does not fit u128.
pub open spec fn pow2_128() -> int {
    0x1_0000_0000_0000_0000_0000_0000_0000_0000int
}

/// The value of a 256-bit quantity held as (high, low) 128-bit limbs.
pub open spec fn wide_val(hi: u128, lo: u128) -> int {
    hi * pow2_128() + lo
}

/// Mathematical value of `wad_mul`: round_half_up((a * b) / WAD).
pub open spec fn wad_mul_val(a: int, b: int) -> int {
    (a * b + HALF_WAD_U128) / (WAD_U128 as int)
}

/// Mathematical value of `wad_div`: round_half_up((a * WAD) / b), for b >= 1.
pub open spec fn wad_div_val(a: int, b: int) -> int {
    (a * (WAD_U128 as int) + b / 2) / b
}

/// Full 256-bit product of two 128-bit values, as (high, low) limbs.
fn mul_wide(a: u128, b: u128) -> (r: (u128, u128))
    ensures
        wide_val(r.0, r.1) == a * b,
{
    let ah: u128 = a / LIMB_U128;
    let al: u128 = a % LIMB_U128;
    let bh: u128 = b / LIMB_U128;
    let bl: u128 = b % LIMB_U128;
    proof {
        lemma_fundamental_div_mod(a as int, LIMB_U128 as int);
        lemma_fundamental_div_mod(b as int, LIMB_U128 as int);
        assert(ah <= 0xffff_ffff_ffff_ffff) by {
            lemma_fundamental_div_mod_converse_div(
                a as int, LIMB_U128 as int, ah as int, al as int);
        }
        assert(bh <= 0xffff_ffff_ffff_ffff) by {
            lemma_fundamental_div_mod_converse_div(
                b as int, LIMB_U128 as int, bh as int, bl as int);
        }
        lemma_mul_upper_bound(ah as int, 0xffff_ffff_ffff_ffff,
            bh as int, 0xffff_ffff_ffff_ffff);
        lemma_mul_upper_bound(ah as int, 0xffff_ffff_ffff_ffff,
            bl as int, 0xffff_ffff_ffff_ffff);
        lemma_mul_upper_bound(al as int, 0xffff_ffff_ffff_ffff,
            bh as int, 0xffff_ffff_ffff_ffff);
        lemma_mul_upper_bound(al as int, 0xffff_ffff_ffff_ffff,
            bl as int, 0xffff_ffff_ffff_ffff);
    }
    let hh: u128 = ah * bh;
    let hl: u128 = ah * bl;
    let lh: u128 = al * bh;
    let ll: u128 = al * bl;
    let ll_hi: u128 = ll / LIMB_U128;
    let ll_lo: u128 = ll % LIMB_U128;
    proof {
        lemma_fundamental_div_mod(ll as int, LIMB_U128 as int);
        lemma_fundamental_div_mod_converse_div(
            ll as int, LIMB_U128 as int, ll_hi as int, ll_lo as int);
    }
    let t: u128 = ll_hi + (lh % LIMB_U128) + (hl % LIMB_U128);
    let lo: u128 = (t % LIMB_U128) * LIMB_U128 + ll_lo;
    proof {
        lemma_fundamental_div_mod(lh as int, LIMB_U128 as int);
        lemma_fundamental_div_mod(hl as int, LIMB_U128 as int);
        lemma_fundamental_div_mod(t as int, LIMB_U128 as int);
        assert((t % LIMB_U128) * LIMB_U128
            <= 0xffff_ffff_ffff_ffff * LIMB_U128) by {
            lemma_mul_inequality(t as int % LIMB_U128 as int,
                0xffff_ffff_ffff_ffff, LIMB_U128 as int);
        }
        assert(lh / LIMB_U128 <= 0xffff_ffff_ffff_ffff
            && hl / LIMB_U128 <= 0xffff_ffff_ffff_ffff
            && t / LIMB_U128 <= 2) by {
            lemma_fundamental_div_mod_converse_div(lh as int, LIMB_U128 as int,
                (lh / LIMB_U128) as int, (lh % LIMB_U128) as int);
            lemma_fundamental_div_mod_converse_div(hl as int, LIMB_U128 as int,
                (hl / LIMB_U128) as int, (hl % LIMB_U128) as int);
            lemma_fundamental_div_mod_converse_div(t as int, LIMB_U128 as int,
                (t / LIMB_U128) as int, (t % LIMB_U128) as int);
        }
    }
    let hi: u128 = hh + (lh / LIMB_U128) + (hl / LIMB_U128) + (t / LIMB_U128);
    proof {
        let base: int = LIMB_U128 as int;
        assert(a * b == (ah * base + al) * (bh * base + bl)) by {
            lemma_fundamental_div_mod(a as int, base);
            lemma_fundamental_div_mod(b as int, base);
        }
        assert((ah * base + al) * (bh * base + bl)
            == (ah * bh) * (base * base) + (ah * bl) * base + (al * bh) * base
                + al * bl) by (nonlinear_arith);
        assert(base * base == pow2_128());
        // recombine the cross terms and the low product into the two limbs
        let lh_h = lh as int / base;
        let lh_l = lh as int % base;
        let hl_h = hl as int / base;
        let hl_l = hl as int % base;
        let t_h = t as int / base;
        let t_l = t as int % base;
        assert(hl as int * base + lh as int * base + ll
            == (hl_h + lh_h) * pow2_128() + (ll_hi + lh_l + hl_l) * base + ll_lo)
            by (nonlinear_arith)
            requires
                hl == hl_h * base + hl_l,
                lh == lh_h * base + lh_l,
                ll == ll_hi * base + ll_lo,
                base == LIMB_U128 as int,
                base * base == pow2_128(),
                0 <= ll_hi,
                0 <= ll_lo,
        ;
        assert((ll_hi + lh_l + hl_l) * base == t_h * pow2_128() + t_l * base)
            by (nonlinear_arith)
            requires
                t == ll_hi + lh_l + hl_l,
                t == t_h * base + t_l,
                base == LIMB_U128 as int,
                base * base == pow2_128(),
        ;
        assert(hh as int * pow2_128() + (lh_h + hl_h) * pow2_128()
            + t_h * pow2_128() == hi as int * pow2_128()) by (nonlinear_arith)
            requires
                hi == hh + lh_h + hl_h + t_h,
        ;
        assert(lo == t_l * base + ll_lo);
    }
    (hi, lo)
}

/// Adds a 128-bit value to a 256-bit quantity held as (high, low) limbs.
fn wide_add(hi: u128, lo: u128, x: u128) -> (r: (u128, u128))
    requires
        hi < u128::MAX,
    ensures
        wide_val(r.0, r.1) == wide_val(hi, lo) + x,
{
    if lo <= u128::MAX - x {
        (hi, lo + x)
    } else {
        // lo + x wraps past 2^128: carry one into the high limb
        let lo2: u128 = x - (u128::MAX - lo) - 1;
        proof {
            assert(lo2 == lo + x - pow2_128());
            assert((hi + 1) as int * pow2_128() + lo2
                == hi as int * pow2_128() + lo + x) by (nonlinear_arith)
                requires lo2 == lo + x - pow2_128();
        }
        (hi + 1, lo2)
    }
}

/// True when the first 256-bit quantity is at most the second.
fn wide_le(ahi: u128, alo: u128, bhi: u128, blo: u128) -> (r: bool)
    ensures
        r == (wide_val(ahi, alo) <= wide_val(bhi, blo)),
{
    proof {
        if ahi < bhi {
            assert(ahi as int * pow2_128() + alo < bhi as int * pow2_128() + blo)
                by (nonlinear_arith)
                requires ahi < bhi, alo < pow2_128(), 0 <= blo;
        }
        if ahi > bhi {
            assert(ahi as int * pow2_128() + alo > bhi as int * pow2_128() + blo)
                by (nonlinear_arith)
                requires ahi > bhi, blo < pow2_128(), 0 <= alo;
        }
    }
    ahi < bhi || (ahi == bhi && alo <= blo)
}

/// Divides a 256-bit quantity by a divisor below 2^64, by two-limb short
/// division; the quotient must fit in 128 bits (`hi < d`).
fn div_wide_small(hi: u128, lo: u128, d: u128) -> (r: (u128, u128))
    requires
        0 < d < LIMB_U128,
        hi < d,
    ensures
        wide_val(hi, lo) == r.0 * d + r.1,
        r.1 < d,
{
    let lo_hi: u128 = lo / LIMB_U128;
    let lo_lo: u128 = lo % LIMB_U128;
    proof {
        lemma_fundamental_div_mod(lo as int, LIMB_U128 as int);
        lemma_fundamental_div_mod_converse_div(lo as int, LIMB_U128 as int,
            lo_hi as int, lo_lo as int);
        assert(hi as int * LIMB_U128 <= (d - 1) * LIMB_U128) by {
            lemma_mul_inequality(hi as int, d as int - 1, LIMB_U128 as int);
        }
        assert((d - 1) * LIMB_U128 + LIMB_U128 == d * LIMB_U128)
            by (nonlinear_arith);
    }
    let cur1: u128 = hi * LIMB_U128 + lo_hi;
    let q1: u128 = cur1 / d;
    let r1: u128 = cur1 % d;
    proof {
        lemma_fundamental_div_mod(cur1 as int, d as int);
        assert(q1 < LIMB_U128) by {
            lemma_fundamental_div_mod_converse_div(cur1 as int, d as int,
                q1 as int, r1 as int);
            assert(cur1 < d * LIMB_U128) by (nonlinear_arith)
                requires cur1 == hi * LIMB_U128 + lo_hi, hi < d,
                    lo_hi < LIMB_U128;
            assert(q1 as int * d < d as int * LIMB_U128
                ==> q1 < LIMB_U128) by (nonlinear_arith)
                requires d > 0;
        }
        assert(r1 as int * LIMB_U128 <= (d - 1) * LIMB_U128) by {
            lemma_mul_inequality(r1 as int, d as int - 1, LIMB_U128 as int);
        }
        assert((d - 1) * LIMB_U128 + LIMB_U128 == d * LIMB_U128)
            by (nonlinear_arith);
    }
    let cur2: u128 = r1 * LIMB_U128 + lo_lo;
    let q2: u128 = cur2 / d;
    let r2: u128 = cur2 % d;
    proof {
        lemma_fundamental_div_mod(cur2 as int, d as int);
        assert(q2 < LIMB_U128) by {
            lemma_fundamental_div_mod_converse_div(cur2 as int, d as int,
                q2 as int, r2 as int);
            assert(cur2 < d * LIMB_U128) by (nonlinear_arith)
                requires cur2 == r1 * LIMB_U128 + lo_lo, r1 < d,
                    lo_lo < LIMB_U128;
            assert(q2 as int * d < d as int * LIMB_U128
                ==> q2 < LIMB_U128) by (nonlinear_arith)
                requires d > 0;
        }
        assert(q1 as int * LIMB_U128 <= (LIMB_U128 as int - 1) * LIMB_U128) by {
            lemma_mul_inequality(q1 as int, LIMB_U128 as int - 1,
                LIMB_U128 as int);
        }
    }
    let q: u128 = q1 * LIMB_U128 + q2;
    proof {
        // hi*2^128 + lo == ((q1*2^64 + q2) * d) + r2
        assert(hi as int * pow2_128() + lo == q as int * d + r2)
            by (nonlinear_arith)
            requires
                lo == lo_hi * LIMB_U128 as int + lo_lo,
                cur1 == hi * LIMB_U128 as int + lo_hi,
                cur1 == d * (q1 as int) + r1,
                cur2 == r1 * LIMB_U128 as int + lo_lo,
                cur2 == d * (q2 as int) + r2,
                q == q1 * LIMB_U128 as int + q2,
                pow2_128() == LIMB_U128 as int * LIMB_U128 as int,
        ;
    }
    (q, r2)
}

/// Quotient of a 256-bit quantity by an arbitrary positive divisor, found by
/// binary search; the quotient must be at most WAD.
fn div_wide_capped(nhi: u128, nlo: u128, d: u128) -> (r: u128)
    requires
        d >= 1,
        wide_val(nhi, nlo) < d * ((WAD_U128 + 1) as int),
    ensures
        r <= WAD_U128,
        r * d <= wide_val(nhi, nlo) < (r + 1) * d,
{
    let mut low: u128 = 0;
    let mut high: u128 = WAD_U128;
    proof {
        assert((WAD_U128 + 1) as int * d == d * (WAD_U128 + 1) as int)
            by (nonlinear_arith);
    }
    while low < high
        invariant
            low <= high <= WAD_U128,
            d >= 1,
            low * d <= wide_val(nhi, nlo),
            wide_val(nhi, nlo) < (high + 1) * d,
        decreases high - low,
    {
        let mid: u128 = low + (high - low + 1) / 2;
        let (phi, plo) = mul_wide(mid, d);
        if wide_le(phi, plo, nhi, nlo) {
            low = mid;
        } else {
            high = mid - 1;
        }
    }
    low
}

/// WAD-scaled multiplication with half-up rounding.
///
/// Fails with `MathOverflow` exactly when the rounded quotient does not fit
/// in 128 bits.
pub fn wad_mul(a: u128, b: u128) -> (r: Result<u128, Error>)
    ensures
        match r {
            Ok(v) => v == wad_mul_val(a as int, b as int)
                && wad_mul_val(a as int, b as int) < pow2_128(),
            Err(e) => e == Error::MathOverflow
                && wad_mul_val(a as int, b as int) >= pow2_128(),
        },
{
    let (mhi, mlo) = mul_wide(a, b);
    proof {
        lemma_mul_upper_bound(a as int, pow2_128() - 1, b as int, pow2_128() - 1);
        assert(mhi < u128::MAX) by (nonlinear_arith)
            requires
                mhi * pow2_128() + mlo == a * b,
                0 <= mlo,
                a < pow2_128(),
                b < pow2_128(),
                a * b <= (pow2_128() - 1) * (pow2_128() - 1),
        ;
    }
    let (nhi, nlo) = wide_add(mhi, mlo, HALF_WAD_U128);
    let ghost num: int = a * b + HALF_WAD_U128;
    proof {
        assert(wide_val(nhi, nlo) == num);
    }
    if nhi >= WAD_U128 {
        proof {
            // num >= WAD * 2^128, so the quotient does not fit in 128 bits
            assert(num >= WAD_U128 as int * pow2_128()) by (nonlinear_arith)
                requires
                    num == nhi * pow2_128() + nlo,
                    nhi >= WAD_U128,
                    0 <= nlo,
            ;
            assert(num / (WAD_U128 as int) >= pow2_128()) by {
                lemma_fundamental_div_mod(num, WAD_U128 as int);
                assert(num / (WAD_U128 as int) < pow2_128()
                    ==> num <= WAD_U128 as int * (pow2_128() - 1)
                        + (WAD_U128 - 1)) by (nonlinear_arith);
                assert(WAD_U128 as int * (pow2_128() - 1) + (WAD_U128 - 1)
                    < WAD_U128 as int * pow2_128()) by (nonlinear_arith);
            }
        }
        Err(Error::MathOverflow)
    } else {
        let (q, rem) = div_wide_small(nhi, nlo, WAD_U128);
        proof {
            lemma_fundamental_div_mod_converse_div(num, WAD_U128 as int,
                q as int, rem as int);
        }
        Ok(q)
    }
}

/// WAD-scaled division with half-up rounding, for a non-zero divisor.
///
/// Fails with `MathOverflow` exactly when the rounded quotient does not fit
/// in 128 bits.
pub fn wad_div(a: u128, b: u128) -> (r: Result<u128, Error>)
    requires
        b >= 1,
    ensures
        match r {
            Ok(v) => v == wad_div_val(a as int, b as int)
                && wad_div_val(a as int, b as int) < pow2_128(),
            Err(e) => e == Error::MathOverflow
                && wad_div_val(a as int, b as int) >= pow2_128(),
        },
{
    let q0: u128 = a / b;
    let r0: u128 = a % b;
    let (mhi, mlo) = mul_wide(r0, WAD_U128);
    proof {
        assert(mhi < u128::MAX) by (nonlinear_arith)
            requires
                mhi * pow2_128() + mlo == r0 * WAD_U128,
                0 <= mlo,
                r0 < pow2_128(),
                r0 * WAD_U128 <= (pow2_128() - 1) * (WAD_U128 as int),
        ;
        lemma_mul_inequality(r0 as int, pow2_128() - 1, WAD_U128 as int);
    }
    let (nhi, nlo) = wide_add(mhi, mlo, b / 2);
    let ghost num: int = r0 * WAD_U128 + b / 2;
    proof {
        assert(wide_val(nhi, nlo) == num);
        lemma_fundamental_div_mod(a as int, b as int);
        lemma_fundamental_div_mod(b as int, 2);
        assert(num < b * ((WAD_U128 + 1) as int)) by (nonlinear_arith)
            requires
                num == r0 * WAD_U128 + b / 2,
                r0 < b,
                b / 2 < b,
                b >= 1,
        ;
    }
    let t: u128 = div_wide_capped(nhi, nlo, b);
    proof {
        assert((t + 1) as int * b == t as int * b + b) by (nonlinear_arith);
        // t is the rounded quotient of the fractional part
        lemma_fundamental_div_mod_converse_div(num, b as int, t as int,
            num - t as int * b);
        // full quotient: (a*WAD + b/2) / b == q0*WAD + t
        assert(a as int * WAD_U128 + b / 2
            == (q0 as int * WAD_U128 + t) * b + (num - t as int * b))
            by (nonlinear_arith)
            requires
                a == b * q0 + r0,
                num == r0 * WAD_U128 + b / 2,
        ;
        lemma_fundamental_div_mod_converse_div(a as int * WAD_U128 + b / 2,
            b as int, q0 as int * WAD_U128 + t, num - t as int * b);
    }
    if q0 > (u128::MAX - t) / WAD_U128 {
        proof {
            lemma_fundamental_div_mod((u128::MAX - t) as int, WAD_U128 as int);
            assert(q0 as int * WAD_U128 + t >= pow2_128()) by (nonlinear_arith)
                requires
                    q0 as int > (u128::MAX - t) as int / (WAD_U128 as int),
                    (u128::MAX - t) as int == WAD_U128 as int
                        * ((u128::MAX - t) as int / (WAD_U128 as int))
                        + ((u128::MAX - t) as int % (WAD_U128 as int)),
                    (u128::MAX - t) as int % (WAD_U128 as int) < WAD_U128,
                    t <= WAD_U128,
            ;
        }
        Err(Error::MathOverflow)
    } else {
        proof {
            lemma_fundamental_div_mod((u128::MAX - t) as int, WAD_U128 as int);
            assert(q0 as int * WAD_U128 + t <= u128::MAX) by (nonlinear_arith)
                requires
                    q0 as int <= (u128::MAX - t) as int / (WAD_U128 as int),
                    (u128::MAX - t) as int == WAD_U128 as int
                        * ((u128::MAX - t) as int / (WAD_U128 as int))
                        + ((u128::MAX - t) as int % (WAD_U128 as int)),
                    0 <= (u128::MAX - t) as int % (WAD_U128 as int),
                    t <= WAD_U128,
            ;
        }
        Ok(q0 * WAD_U128 + t)
    }
}

/// Mathematical outcome of `utilization_rate`.
pub open spec fn utilization_spec(cash: u128, borrows: u128, reserves: u128)
    -> Result<u128, Error> {
    if borrows == 0 {
        Ok(0u128)
    } else if cash + borrows >= pow2_128() {
        Err(Error::MathOverflow)
    } else if cash + borrows < reserves {
        Err(Error::MathOverflow)
    } else if cash + borrows - reserves == 0 {
        Ok(0u128)
    } else if wad_div_val(borrows as int, cash + borrows - reserves)
        >= pow2_128() {
        Err(Error::MathOverflow)
    } else {
        Ok(wad_div_val(borrows as int, cash + borrows - reserves) as u128)
    }
}

/// Fraction of pool liquidity lent out: borrows / (cash + borrows - reserves),
/// WAD-scaled; 0 when there is no debt or no liquidity.
///
/// Fails with `MathOverflow` when the denominator underflows (an invariant
/// violation) or the quotient does not fit in 128 bits.
pub fn utilization_rate(cash: u128, borrows: u128, reserves: u128)
    -> (r: Result<u128, Error>)
    ensures
        r == utilization_spec(cash, borrows, reserves),
{
    if borrows == 0 {
        return Ok(0);
    }
    let sum = match cash.checked_add(borrows) {
        Some(v) => v,
        None => {
            return Err(Error::MathOverflow);
        },
    };
    if sum < reserves {
        return Err(Error::MathOverflow);
    }
    let denom = sum - reserves;
    if denom == 0 {
        return Ok(0);
    }
    wad_div(borrows, denom)
}

} // verus!
