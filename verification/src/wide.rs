//! A 256-bit unsigned integer held as two 128-bit halves, together with the
//! arithmetic the swap math needs on it: construction, shifting into the
//! 96-bit price scale, checked addition and subtraction, and widening
//! multiplication of two 128-bit values.
//!
//! The exact multiply-then-divide over 512-bit intermediates, and the
//! 256-bit remainder, are delegated to the `ruint` crate behind two trusted
//! wrappers; everything else is verified here.

use vstd::prelude::*;
use vstd::arithmetic::div_mod::lemma_fundamental_div_mod;
use vstd::arithmetic::mul::lemma_mul_upper_bound;

verus! {

/// 2^128, the weight of the high half of a `Wide`.
pub open spec fn pow2_128() -> int {
    0x100000000000000000000000000000000int
}

/// 2^256, the first value a `Wide` cannot hold.
pub open spec fn pow2_256() -> int {
    0x10000000000000000000000000000000000000000000000000000000000000000int
}

/// 2^96, the fixed binary scale of square-root prices.
pub const PRICE_SCALE: u128 = 0x1000000000000000000000000;

/// A 256-bit unsigned value: `hi * 2^128 + lo`.
#[derive(Clone, Copy, Debug, PartialEq, Eq, Structural)]
pub struct Wide {
    pub hi: u128,
    pub lo: u128,
}

impl Wide {
    /// The mathematical value this pair of halves stands for.
    pub open spec fn val(self) -> int {
        self.hi * pow2_128() + self.lo
    }

    /// Every `Wide` value lies below 2^256.
    pub proof fn lemma_val_bounds(self)
        ensures
            0 <= self.val() < pow2_256(),
    {
    }

    pub fn from_u128(x: u128) -> (r: Wide)
        ensures
            r.val() == x,
    {
        Wide { hi: 0, lo: x }
    }

    pub fn is_zero(&self) -> (r: bool)
        ensures
            r == (self.val() == 0),
    {
        self.hi == 0 && self.lo == 0
    }

    /// Shifts a 128-bit value into the price scale: the result is `x * 2^96`.
    pub fn shl96(x: u128) -> (r: Wide)
        ensures
            r.val() == x * PRICE_SCALE,
    {
        proof {
            lemma_fundamental_div_mod(x as int, 0x100000000);
        }
        Wide { hi: x / 0x100000000, lo: (x % 0x100000000) * PRICE_SCALE }
    }

    /// Sum of two 256-bit values; `None` exactly when it does not fit.
    pub fn checked_add(&self, other: &Wide) -> (r: Option<Wide>)
        ensures
            match r {
                Some(s) => s.val() == self.val() + other.val(),
                None => self.val() + other.val() >= pow2_256(),
            },
    {
        let (lo, carry): (u128, u128) = if self.lo <= u128::MAX - other.lo {
            (self.lo + other.lo, 0)
        } else {
            ((self.lo - (u128::MAX - other.lo)) - 1, 1)
        };
        if self.hi > u128::MAX - other.hi {
            return None;
        }
        let h = self.hi + other.hi;
        if carry == 1 && h == u128::MAX {
            return None;
        }
        Some(Wide { hi: h + carry, lo })
    }

    /// Difference of two 256-bit values; `None` exactly when it would be
    /// negative.
    pub fn checked_sub(&self, other: &Wide) -> (r: Option<Wide>)
        ensures
            match r {
                Some(s) => s.val() == self.val() - other.val(),
                None => self.val() < other.val(),
            },
    {
        if self.hi < other.hi || (self.hi == other.hi && self.lo < other.lo) {
            return None;
        }
        if self.lo >= other.lo {
            Some(Wide { hi: self.hi - other.hi, lo: self.lo - other.lo })
        } else {
            Some(Wide {
                hi: (self.hi - other.hi) - 1,
                lo: ((u128::MAX - other.lo) + self.lo) + 1,
            })
        }
    }

    /// Widening multiplication: the full 256-bit product of two 128-bit
    /// values, built from 64-bit half products.
    pub fn mul_u128(a: u128, b: u128) -> (r: Wide)
        ensures
            r.val() == a * b,
    {
        let al: u128 = a % 0x10000000000000000;
        let ah: u128 = a / 0x10000000000000000;
        let bl: u128 = b % 0x10000000000000000;
        let bh: u128 = b / 0x10000000000000000;
        proof {
            lemma_fundamental_div_mod(a as int, 0x10000000000000000);
            lemma_fundamental_div_mod(b as int, 0x10000000000000000);
            lemma_mul_upper_bound(al as int, 0xFFFFFFFFFFFFFFFF, bl as int, 0xFFFFFFFFFFFFFFFF);
            lemma_mul_upper_bound(al as int, 0xFFFFFFFFFFFFFFFF, bh as int, 0xFFFFFFFFFFFFFFFF);
            lemma_mul_upper_bound(ah as int, 0xFFFFFFFFFFFFFFFF, bl as int, 0xFFFFFFFFFFFFFFFF);
            lemma_mul_upper_bound(ah as int, 0xFFFFFFFFFFFFFFFF, bh as int, 0xFFFFFFFFFFFFFFFF);
        }
        let p0: u128 = al * bl;
        let p1: u128 = al * bh;
        let p2: u128 = ah * bl;
        let p3: u128 = ah * bh;
        let base = Wide { hi: p3, lo: p0 };
        let t1 = Wide {
            hi: p1 / 0x10000000000000000,
            lo: (p1 % 0x10000000000000000) * 0x10000000000000000,
        };
        let t2 = Wide {
            hi: p2 / 0x10000000000000000,
            lo: (p2 % 0x10000000000000000) * 0x10000000000000000,
        };
        proof {
            assert(a * b == p3 * pow2_128() + p1 * 0x10000000000000000 + p2 * 0x10000000000000000
                + p0) by (nonlinear_arith)
                requires
                    a == ah * 0x10000000000000000 + al,
                    b == bh * 0x10000000000000000 + bl,
                    p0 == al * bl,
                    p1 == al * bh,
                    p2 == ah * bl,
                    p3 == ah * bh,
            ;
            lemma_fundamental_div_mod(p1 as int, 0x10000000000000000);
            lemma_fundamental_div_mod(p2 as int, 0x10000000000000000);
            lemma_mul_upper_bound(
                a as int,
                0xFFFFFFFFFFFFFFFFFFFFFFFFFFFFFFFF,
                b as int,
                0xFFFFFFFFFFFFFFFFFFFFFFFFFFFFFFFF,
            );
            assert(a * b == base.val() + t1.val() + t2.val());
        }
        let s0 = match base.checked_add(&t1) {
            Some(s) => s,
            None => {
                proof {
                    assert(false);
                }
                return Wide { hi: 0, lo: 0 };
            },
        };
        match s0.checked_add(&t2) {
            Some(s) => s,
            None => {
                proof {
                    assert(false);
                }
                Wide { hi: 0, lo: 0 }
            },
        }
    }
}

/// Relies on `ruint`'s `U512::div_rem` (exact floor division; the 512-bit
/// product of two values below 2^256 never wraps in `wrapping_mul`) and on
/// `u128::try_from` failing exactly above `u128::MAX`. Computes the floor
/// of `x * y / d`.
#[verifier::external_body]
pub(crate) fn mul_div_floor_raw(x: &Wide, y: &Wide, d: &Wide) -> (r: Option<u128>)
    requires
        d.val() != 0,
    ensures
        match r {
            Some(q) => q == x.val() * y.val() / d.val(),
            None => x.val() * y.val() / d.val() > u128::MAX,
        },
{
    let w = |v: &Wide| ruint::aliases::U512::from_limbs([
        v.lo as u64,
        (v.lo >> 64) as u64,
        v.hi as u64,
        (v.hi >> 64) as u64,
        0,
        0,
        0,
        0,
    ]);
    let (q, _) = w(x).wrapping_mul(w(y)).div_rem(w(d));
    u128::try_from(q).ok()
}

/// Relies on `ruint`'s `U256` remainder operator (`wrapping_rem`, which for
/// a nonzero divisor is the exact Euclidean remainder). Computes `x % d`.
#[verifier::external_body]
pub(crate) fn rem_raw(x: &Wide, d: &Wide) -> (r: Wide)
    requires
        d.val() != 0,
    ensures
        r.val() == x.val() % d.val(),
{
    let w = |v: &Wide| ruint::aliases::U256::from_limbs([
        v.lo as u64,
        (v.lo >> 64) as u64,
        v.hi as u64,
        (v.hi >> 64) as u64,
    ]);
    let rem = w(x) % w(d);
    let l = rem.as_limbs();
    Wide {
        hi: ((l[3] as u128) << 64) | (l[2] as u128),
        lo: ((l[1] as u128) << 64) | (l[0] as u128),
    }
}

} // verus!
