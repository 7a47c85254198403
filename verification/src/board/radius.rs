//! The radius of a broadcast.

use vstd::prelude::*;
use vstd::arithmetic::div_mod::lemma_fundamental_div_mod;

verus! {

/// How far a source broadcasts.
///
/// Cells sit on whole coordinates, so the square of the distance between two
/// cells is a whole number. Whether such a distance is within a radius `r`
/// therefore depends on `r` only through the whole part of `r * r`, and that
/// whole part is what a `Radius` holds.
#[derive(Clone, Copy, Debug, PartialEq, Eq, Structural)]
pub struct Radius {
    pub squared: u64,
}

/// The whole part of the square of `numerator / denominator`.
pub open spec fn ratio_squared(numerator: u32, denominator: u32) -> int {
    (numerator * numerator) / (denominator * denominator)
}

/// A squared distance is within the radius `numerator / denominator` exactly
/// when it is at most the whole part of the radius's square.
pub proof fn lemma_ratio_squared_exact(numerator: u32, denominator: u32, dist_sq: int)
    requires
        denominator > 0,
    ensures
        dist_sq <= ratio_squared(numerator, denominator) <==> dist_sq * (denominator * denominator)
            <= numerator * numerator,
{
    let n = numerator * numerator;
    let d = denominator * denominator;
    assert(d > 0) by (nonlinear_arith)
        requires
            d == denominator * denominator,
            denominator > 0,
    ;
    lemma_fundamental_div_mod(n, d);
    let q = n / d;
    let r = n % d;
    assert(0 <= r < d);
    if dist_sq <= q {
        assert(dist_sq * d <= n) by (nonlinear_arith)
            requires
                dist_sq <= q,
                n == d * q + r,
                0 <= r,
                d > 0,
        ;
    } else {
        assert(dist_sq * d > n) by (nonlinear_arith)
            requires
                dist_sq >= q + 1,
                n == d * q + r,
                r < d,
                d > 0,
        ;
    }
}

impl Radius {
    /// The radius whose square has the whole part `squared`.
    pub fn from_squared(squared: u64) -> (radius: Radius)
        ensures
            radius.squared == squared,
    {
        Radius { squared }
    }

    /// The radius `numerator / denominator`, or `None` for a zero
    /// denominator. The radius 1.5 is the ratio of 3 and 2.
    pub fn from_ratio(numerator: u32, denominator: u32) -> (radius: Option<Radius>)
        ensures
            radius is None <==> denominator == 0,
            radius matches Some(r) ==> r.squared == ratio_squared(numerator, denominator),
    {
        if denominator == 0 {
            return None;
        }
        assert(numerator * numerator <= u64::MAX && 0 < denominator * denominator <= u64::MAX)
            by (nonlinear_arith)
            requires
                0 <= numerator <= u32::MAX,
                0 < denominator <= u32::MAX,
        ;
        let n: u64 = (numerator as u64) * (numerator as u64);
        let d: u64 = (denominator as u64) * (denominator as u64);
        Some(Radius { squared: n / d })
    }

    /// Whether `k` is the greatest whole distance within the radius.
    pub open spec fn is_reach(self, k: int) -> bool {
        0 <= k && k * k <= self.squared && self.squared < (k + 1) * (k + 1)
    }

    /// The greatest whole distance within the radius.
    pub open spec fn spec_reach(self) -> int {
        choose|k: int| self.is_reach(k)
    }

    /// Every radius has a reach.
    pub proof fn lemma_reach_exists(self)
        ensures
            self.is_reach(self.spec_reach()),
        decreases self.squared,
    {
        if self.squared == 0 {
            assert(self.is_reach(0));
        } else {
            let smaller = Radius { squared: (self.squared - 1) as u64 };
            smaller.lemma_reach_exists();
            let k = smaller.spec_reach();
            if (k + 1) * (k + 1) <= self.squared {
                assert((k + 2) * (k + 2) > (k + 1) * (k + 1)) by (nonlinear_arith)
                    requires
                        0 <= k,
                ;
                assert(self.is_reach(k + 1));
            } else {
                assert(self.is_reach(k));
            }
        }
    }

    /// The greatest whole distance within the radius.
    pub fn reach(&self) -> (k: u64)
        ensures
            k == self.spec_reach(),
            self.is_reach(k as int),
            k <= u32::MAX,
    {
        let n = self.squared;
        let mut low: u64 = 0;
        let mut high: u64 = 0x1_0000_0000;
        assert(n < high * high) by (nonlinear_arith)
            requires
                n <= u64::MAX,
                high == 0x1_0000_0000,
        ;
        while high - low > 1
            invariant
                low < high <= 0x1_0000_0000,
                low * low <= n < high * high,
            decreases high - low,
        {
            let mid: u64 = low + (high - low) / 2;
            assert(mid * mid <= u64::MAX) by (nonlinear_arith)
                requires
                    0 <= mid < 0x1_0000_0000,
            ;
            if mid * mid <= n {
                low = mid;
            } else {
                high = mid;
            }
        }
        proof {
            self.lemma_reach_exists();
            self.lemma_reach_unique(low as int, self.spec_reach());
        }
        low
    }

    /// A radius has one reach only.
    pub proof fn lemma_reach_unique(self, a: int, b: int)
        requires
            self.is_reach(a),
            self.is_reach(b),
        ensures
            a == b,
    {
        assert(a == b) by (nonlinear_arith)
            requires
                0 <= a,
                a * a <= self.squared < (a + 1) * (a + 1),
                0 <= b,
                b * b <= self.squared < (b + 1) * (b + 1),
        ;
    }
}

} // verus!
