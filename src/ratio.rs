use vstd::arithmetic::div_mod::{lemma_fundamental_div_mod, lemma_mod_pos_bound};
use vstd::prelude::*;

verus! {

/// A non-negative fraction `num / den`, used for every average in this crate.
///
/// The representation is not reduced: an average is reported with the exact
/// numerator and denominator that produced it.
#[derive(Clone, Copy, Debug, PartialEq, Eq, Structural)]
pub struct Ratio {
    pub num: u128,
    pub den: u128,
}

impl Ratio {
    /// A fraction is meaningful only with a positive denominator.
    pub open spec fn wf(&self) -> bool {
        self.den > 0
    }

    /// `self` denotes a strictly greater rational number than `other`.
    pub open spec fn greater_than(&self, other: Ratio) -> bool {
        self.num * other.den > other.num * self.den
    }

    /// Whether `self` is strictly greater than `other`, compared exactly.
    pub fn exceeds(&self, other: &Ratio) -> (r: bool)
        requires
            self.wf(),
            other.wf(),
            self.den <= u64::MAX,
            other.den <= u64::MAX,
        ensures
            r == self.greater_than(*other),
    {
        let q1 = self.num / self.den;
        let r1 = self.num % self.den;
        let q2 = other.num / other.den;
        let r2 = other.num % other.den;
        proof {
            lemma_cross_compare(self.num as int, self.den as int, other.num as int, other.den as int);
            assert(r1 * other.den < 0x1_0000_0000_0000_0000 * 0x1_0000_0000_0000_0000)
                by (nonlinear_arith)
                requires
                    r1 < self.den <= 0x1_0000_0000_0000_0000,
                    other.den <= 0x1_0000_0000_0000_0000,
            ;
            assert(r2 * self.den < 0x1_0000_0000_0000_0000 * 0x1_0000_0000_0000_0000)
                by (nonlinear_arith)
                requires
                    r2 < other.den <= 0x1_0000_0000_0000_0000,
                    self.den <= 0x1_0000_0000_0000_0000,
            ;
        }
        q1 > q2 || (q1 == q2 && r1 * other.den > r2 * self.den)
    }
}

/// `a / b > c / d` decided by integer quotients first, then by remainders,
/// so that no product exceeds the size of a remainder times a denominator.
proof fn lemma_cross_compare(a: int, b: int, c: int, d: int)
    requires
        a >= 0,
        c >= 0,
        b > 0,
        d > 0,
    ensures
        (a * d > c * b) == (a / b > c / d || (a / b == c / d && (a % b) * d > (c % d) * b)),
        0 <= a % b < b,
        0 <= c % d < d,
{
    lemma_fundamental_div_mod(a, b);
    lemma_fundamental_div_mod(c, d);
    lemma_mod_pos_bound(a, b);
    lemma_mod_pos_bound(c, d);
    let q1 = a / b;
    let r1 = a % b;
    let q2 = c / d;
    let r2 = c % d;
    assert(a * d == q1 * (b * d) + r1 * d) by (nonlinear_arith)
        requires
            a == b * q1 + r1,
    ;
    assert(c * b == q2 * (b * d) + r2 * b) by (nonlinear_arith)
        requires
            c == d * q2 + r2,
    ;
    let bd = b * d;
    assert(r2 * b < bd && r1 * d < bd && 0 <= r1 * d && 0 <= r2 * b) by (nonlinear_arith)
        requires
            0 <= r1 < b,
            0 <= r2 < d,
            bd == b * d,
    ;
    if q1 > q2 {
        assert(q1 * bd >= q2 * bd + bd) by (nonlinear_arith)
            requires
                q1 >= q2 + 1,
                bd > 0,
        ;
    } else if q1 < q2 {
        assert(q2 * bd >= q1 * bd + bd) by (nonlinear_arith)
            requires
                q2 >= q1 + 1,
                bd > 0,
        ;
    }
}

} // verus!
