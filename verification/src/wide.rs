//! Multiply-then-divide on 128-bit operands with a 256-bit intermediate.
//!
//! The reward arithmetic scales a 128-bit amount by a 128-bit factor before
//! dividing, and the product does not fit in 128 bits for realistic values.
//! [`mul_div`] forms the full 256-bit product and divides it exactly.

use vstd::arithmetic::div_mod::lemma_fundamental_div_mod_converse;
use vstd::arithmetic::power2::{lemma2_to64, lemma_pow2_adds, lemma_pow2_unfold, pow2};
use vstd::prelude::*;

verus! {

/// Two to the power 64: the base of the limbs used to multiply.
pub const LIMB: u128 = 0x1_0000_0000_0000_0000;

/// Two to the power 127: the weight of the top bit of a 128-bit word.
pub const TOP_BIT: u128 = 0x8000_0000_0000_0000_0000_0000_0000_0000;

/// Two to the power 128, the number of values of a 128-bit word.
pub open spec fn word() -> int {
    u128::MAX + 1
}

/// The exact quotient `a * b / d` over the integers.
pub open spec fn mul_div_exact(a: u128, b: u128, d: u128) -> int
    recommends
        d > 0,
{
    (a * b) / (d as int)
}

/// A 256-bit unsigned number held as two 128-bit words.
#[derive(Clone, Copy, Debug, PartialEq, Eq)]
pub struct Wide {
    pub hi: u128,
    pub lo: u128,
}

impl Wide {
    /// The number this pair of words stands for.
    pub open spec fn value(self) -> int {
        self.hi * word() + self.lo
    }
}

/// Two-word numbers are ordered by their high words first.
proof fn lemma_wide_order(ahi: int, alo: int, bhi: int, blo: int, w: int)
    by (nonlinear_arith)
    requires
        0 <= alo < w,
        0 <= blo < w,
    ensures
        (ahi * w + alo <= bhi * w + blo) <==> (ahi < bhi || (ahi == bhi && alo <= blo)),
{
}

/// The weight of a difference of high words, with and without a borrow.
proof fn lemma_wide_difference(ahi: int, bhi: int, w: int)
    by (nonlinear_arith)
    ensures
        (ahi - bhi) * w == ahi * w - bhi * w,
        (ahi - bhi - 1) * w == ahi * w - bhi * w - w,
{
}

impl Wide {
    /// Whether this number is at most `other`.
    pub fn le(&self, other: &Wide) -> (r: bool)
        ensures
            r == (self.value() <= other.value()),
    {
        proof {
            lemma_wide_order(
                self.hi as int,
                self.lo as int,
                other.hi as int,
                other.lo as int,
                word(),
            );
        }
        self.hi < other.hi || (self.hi == other.hi && self.lo <= other.lo)
    }

    /// This number less `other`, which is not larger.
    pub fn minus(&self, other: &Wide) -> (r: Wide)
        requires
            other.value() <= self.value(),
        ensures
            r.value() == self.value() - other.value(),
    {
        proof {
            lemma_wide_order(
                other.hi as int,
                other.lo as int,
                self.hi as int,
                self.lo as int,
                word(),
            );
            lemma_wide_difference(self.hi as int, other.hi as int, word());
        }
        if self.lo >= other.lo {
            Wide { hi: self.hi - other.hi, lo: self.lo - other.lo }
        } else {
            Wide { hi: self.hi - other.hi - 1, lo: self.lo + (u128::MAX - other.lo) + 1 }
        }
    }
}

/// The product of two limbs fits in one word.
proof fn lemma_limb_product(x: u128, y: u128)
    by (nonlinear_arith)
    requires
        x < 0x1_0000_0000_0000_0000,
        y < 0x1_0000_0000_0000_0000,
    ensures
        x * y <= 0xffff_ffff_ffff_ffff * 0xffff_ffff_ffff_ffff,
{
}

/// The product of two numbers split into limbs, column by column.
proof fn lemma_split_product(a1: int, a0: int, b1: int, b0: int, l: int)
    ensures
        (a1 * l + a0) * (b1 * l + b0) == (a1 * b1) * (l * l) + (a1 * b0 + a0 * b1) * l + a0 * b0,
{
    let x = a1 * l;
    let y = b1 * l;
    assert((x + a0) * (y + b0) == x * y + x * b0 + a0 * y + a0 * b0) by (nonlinear_arith);
    assert(x * y == (a1 * b1) * (l * l)) by (nonlinear_arith)
        requires
            x == a1 * l,
            y == b1 * l,
    ;
    assert(x * b0 + a0 * y == (a1 * b0 + a0 * b1) * l) by (nonlinear_arith)
        requires
            x == a1 * l,
            y == b1 * l,
    ;
}

/// The full product of two 128-bit words.
pub fn wide_mul(a: u128, b: u128) -> (r: Wide)
    ensures
        r.value() == a * b,
{
    let a1: u128 = a / LIMB;
    let a0: u128 = a % LIMB;
    let b1: u128 = b / LIMB;
    let b0: u128 = b % LIMB;
    proof {
        lemma_limb_product(a0, b0);
        lemma_limb_product(a0, b1);
        lemma_limb_product(a1, b0);
        lemma_limb_product(a1, b1);
    }
    let low_low: u128 = a0 * b0;
    let low_high: u128 = a0 * b1;
    let high_low: u128 = a1 * b0;
    let high_high: u128 = a1 * b1;
    // The middle column: the high limb of low_low and the low limbs of the cross terms.
    let mid: u128 = low_low / LIMB + low_high % LIMB + high_low % LIMB;
    let lo: u128 = (mid % LIMB) * LIMB + low_low % LIMB;
    proof {
        lemma_split_product(a1 as int, a0 as int, b1 as int, b0 as int, LIMB as int);
        assert(a * b == high_high * (LIMB * LIMB) + (high_low + low_high) * LIMB + low_low);
        assert(LIMB * LIMB == word());
        assert(a * b == (high_high + low_high / LIMB + high_low / LIMB + mid / LIMB) * word() + lo);
        assert(a * b <= u128::MAX * u128::MAX) by (nonlinear_arith);
        assert(u128::MAX * u128::MAX < u128::MAX * word());
    }
    let hi: u128 = high_high + low_high / LIMB + high_low / LIMB + mid / LIMB;
    Wide { hi, lo }
}

/// The top bit of what is left of the low word is the next bit of the
/// dividend.
proof fn lemma_top_bit(rest: int, r: int, w: int, half: int)
    by (nonlinear_arith)
    requires
        half > 0,
        w == 2 * half,
        rest * w == r * (2 * 0x8000_0000_0000_0000_0000_0000_0000_0000),
    ensures
        rest >= 0x8000_0000_0000_0000_0000_0000_0000_0000 <==> r >= half,
{
}

/// Shifting the next bit `t` into the prefix `p` keeps the dividend
/// accounted for.
proof fn lemma_shift_in(n: int, p: int, w: int, r: int, rest: int, half: int, t: int)
    by (nonlinear_arith)
    requires
        w == 2 * half,
        n == p * w + r,
        rest * w == r * (2 * 0x8000_0000_0000_0000_0000_0000_0000_0000),
    ensures
        n == (2 * p + t) * half + (r - t * half),
        (2 * (rest - t * 0x8000_0000_0000_0000_0000_0000_0000_0000)) * half == (r - t * half) * (2
            * 0x8000_0000_0000_0000_0000_0000_0000_0000),
{
}

/// One step of long division: the prefix doubles and takes a bit, the
/// quotient doubles and takes the bit `s`.
proof fn lemma_quotient_step(p: int, q: int, d: int, rem: int, t: int, s: int)
    by (nonlinear_arith)
    requires
        p == q * d + rem,
    ensures
        2 * p + t == (2 * q + s) * d + (2 * rem + t - s * d),
{
}

/// The values of the two largest powers of two that are used.
proof fn lemma_pow2_128()
    ensures
        pow2(128) == word(),
        pow2(127) == TOP_BIT,
{
    lemma2_to64();
    lemma_pow2_adds(64, 64);
    lemma_pow2_unfold(128);
}

/// The powers of two up to the 127th do not exceed the top bit.
proof fn lemma_pow2_below(i: nat)
    requires
        i <= 127,
    ensures
        pow2(i) <= TOP_BIT,
    decreases 127 - i,
{
    lemma_pow2_128();
    if i < 127 {
        lemma_pow2_below(i + 1);
        lemma_pow2_unfold(i + 1);
    }
}

/// Divides a 256-bit number by a 128-bit divisor that exceeds its high word,
/// so that the quotient fits in one word.
pub fn wide_div(n: Wide, d: u128) -> (q: u128)
    requires
        n.hi < d,
    ensures
        q == n.value() / (d as int),
{
    let mut q: u128 = 0;
    let mut rem: u128 = n.hi;
    let mut rest: u128 = n.lo;
    let mut i: u32 = 0;
    let ghost mut p: int = n.hi as int;
    let ghost mut r: int = n.lo as int;
    let ghost mut w: int = word();
    proof {
        lemma_pow2_128();
        lemma2_to64();
        assert(p == q * d + rem) by (nonlinear_arith)
            requires
                q == 0,
                p == rem,
        ;
    }
    while i < 128
        invariant
            i <= 128,
            w == pow2((128 - i) as nat),
            n.value() == p * w + r,
            0 <= r < w,
            rest * w == r * word(),
            p == q * d + rem,
            rem < d,
            q < pow2(i as nat),
        decreases 128 - i,
    {
        let ghost half: int = pow2((127 - i) as nat) as int;
        proof {
            lemma_pow2_unfold((128 - i) as nat);
            vstd::arithmetic::power2::lemma_pow2_pos((127 - i) as nat);
            lemma_pow2_below(i as nat);
            lemma_pow2_unfold((i + 1) as nat);
            lemma_top_bit(rest as int, r, w, half);
        }
        let top: u128 = if rest >= TOP_BIT {
            1
        } else {
            0
        };
        let ghost old_rest = rest;
        rest = (rest - top * TOP_BIT) * 2;
        // rem * 2 + top may not fit in a word: compare it with d without forming it.
        let gap: u128 = d - rem;
        let carry: u128 = rem + top;
        proof {
            lemma_shift_in(n.value(), p, w, r, old_rest as int, half, top as int);
            if carry >= gap {
                lemma_quotient_step(p, q as int, d as int, rem as int, top as int, 1);
            } else {
                lemma_quotient_step(p, q as int, d as int, rem as int, top as int, 0);
            }
            p = 2 * p + top;
            r = r - top * half;
            w = half;
        }
        if carry >= gap {
            rem = carry - gap;
            q = q * 2 + 1;
        } else {
            rem = rem + carry;
            q = q * 2;
        }
        i = i + 1;
    }
    proof {
        lemma2_to64();
        assert(p * w == p) by (nonlinear_arith)
            requires
                w == 1,
        ;
        lemma_fundamental_div_mod_converse(n.value(), d as int, q as int, rem as int);
    }
    q
}

/// A divisor that does not exceed the high word gives a quotient of more
/// than one word.
proof fn lemma_quotient_too_large(n: int, hi: int, lo: int, d: int)
    by (nonlinear_arith)
    requires
        0 < d <= hi,
        0 <= lo,
        n == hi * (u128::MAX + 1) + lo,
    ensures
        n / d > u128::MAX,
{
}

/// A divisor that exceeds the high word gives a quotient of one word.
proof fn lemma_quotient_fits(n: int, hi: int, lo: int, d: int)
    by (nonlinear_arith)
    requires
        0 <= hi < d,
        0 <= lo <= u128::MAX,
        n == hi * (u128::MAX + 1) + lo,
    ensures
        0 <= n / d <= u128::MAX,
{
}

/// `a * b / d`, rounded down, with the product formed in 256 bits.
///
/// The result is `None` when the divisor is zero or the quotient does not fit
/// in 128 bits, and the exact quotient otherwise.
pub fn mul_div(a: u128, b: u128, d: u128) -> (r: Option<u128>)
    ensures
        r == if d == 0 || mul_div_exact(a, b, d) > u128::MAX {
            None
        } else {
            Some(mul_div_exact(a, b, d) as u128)
        },
{
    if d == 0 {
        return None;
    }
    let n = wide_mul(a, b);
    if n.hi >= d {
        proof {
            lemma_quotient_too_large(n.value(), n.hi as int, n.lo as int, d as int);
        }
        return None;
    }
    proof {
        lemma_quotient_fits(n.value(), n.hi as int, n.lo as int, d as int);
    }
    Some(wide_div(n, d))
}

} // verus!
