//! Reputations as exact fractions, and how two of them compare.

use vstd::prelude::*;

verus! {

/// A reputation as a fraction. The denominator is never zero.
#[derive(Clone, Copy, Debug, PartialEq, Eq)]
pub struct Reputation {
    pub numerator: u128,
    pub denominator: u64,
}

/// The reputation for given totals: nothing without notes, else the upvotes
/// per note times the sum of notes, upvotes and downloads.
pub open spec fn reputation_of(notes: int, upvotes: int, downloads: int) -> (int, int) {
    if notes == 0 {
        (0, 1)
    } else {
        (upvotes * (notes + upvotes + downloads), notes)
    }
}

impl Reputation {
    /// Whether the reputation stands for the fraction `value`.
    pub open spec fn stands_for(self, value: (int, int)) -> bool {
        self.numerator == value.0 && self.denominator == value.1
    }

    /// Whether this reputation is higher than `other`.
    pub open spec fn above(self, other: Reputation) -> bool {
        self.numerator * other.denominator > other.numerator * self.denominator
    }

    /// Whether this reputation has the same value as `other`.
    pub open spec fn level_with(self, other: Reputation) -> bool {
        self.numerator * other.denominator == other.numerator * self.denominator
    }

    /// Whether the reputation is zero.
    pub open spec fn is_zero(self) -> bool {
        self.numerator == 0
    }

    /// The reputation for given totals, none of them below zero.
    pub fn new(total_notes: i64, total_upvotes: i64, total_downloads: i64) -> (r: Reputation)
        requires
            0 <= total_notes,
            0 <= total_upvotes,
            0 <= total_downloads,
        ensures
            r.stands_for(reputation_of(total_notes as int, total_upvotes as int, total_downloads as int)),
            r.denominator > 0,
            total_notes == 0 ==> r.is_zero(),
    {
        if total_notes == 0 {
            Reputation { numerator: 0, denominator: 1 }
        } else {
            let sum: u128 = total_notes as u128 + total_upvotes as u128 + total_downloads as u128;
            assert(total_upvotes * sum <= 0x7fff_ffff_ffff_ffff * (3 * 0x7fff_ffff_ffff_ffff))
                by (nonlinear_arith)
                requires
                    0 <= total_upvotes <= 0x7fff_ffff_ffff_ffff,
                    0 <= sum <= 3 * 0x7fff_ffff_ffff_ffff,
            ;
            Reputation { numerator: total_upvotes as u128 * sum, denominator: total_notes as u64 }
        }
    }
}

/// Whether the fraction `a` is larger than the fraction `b`.
pub open spec fn higher(a: (int, int), b: (int, int)) -> bool {
    a.0 * b.1 > b.0 * a.1
}

/// Whether the fractions `a` and `b` have the same value.
pub open spec fn level(a: (int, int), b: (int, int)) -> bool {
    a.0 * b.1 == b.0 * a.1
}

/// The two limbs of a product: `x * m` is `high * 2^64 + low`, and `low` is
/// below `2^64`.
fn scaled(x: u128, m: u64) -> (r: (u128, u128))
    ensures
        x * m == r.0 * 0x1_0000_0000_0000_0000 + r.1,
        r.1 < 0x1_0000_0000_0000_0000,
{
    let x_high: u128 = x / 0x1_0000_0000_0000_0000;
    let x_low: u128 = x % 0x1_0000_0000_0000_0000;
    assert(x_low * m <= 0xffff_ffff_ffff_ffff * 0xffff_ffff_ffff_ffff) by (nonlinear_arith)
        requires
            0 <= x_low <= 0xffff_ffff_ffff_ffff,
            0 <= m <= 0xffff_ffff_ffff_ffff,
    ;
    assert(x_high * m <= 0xffff_ffff_ffff_ffff * 0xffff_ffff_ffff_ffff) by (nonlinear_arith)
        requires
            0 <= x_high <= 0xffff_ffff_ffff_ffff,
            0 <= m <= 0xffff_ffff_ffff_ffff,
    ;
    let p_low: u128 = x_low * (m as u128);
    let p_high: u128 = x_high * (m as u128);
    let high: u128 = p_high + p_low / 0x1_0000_0000_0000_0000;
    let low: u128 = p_low % 0x1_0000_0000_0000_0000;
    assert(x * m == (x_high * m) * 0x1_0000_0000_0000_0000 + x_low * m) by (nonlinear_arith)
        requires
            x == x_high * 0x1_0000_0000_0000_0000 + x_low,
    ;
    (high, low)
}

/// Whether reputation `a` is higher than reputation `b`.
pub fn reputation_above(a: Reputation, b: Reputation) -> (r: bool)
    ensures
        r == a.above(b),
{
    let left = scaled(a.numerator, b.denominator);
    let right = scaled(b.numerator, a.denominator);
    left.0 > right.0 || (left.0 == right.0 && left.1 > right.1)
}

/// Whether reputations `a` and `b` have the same value.
pub fn reputation_level(a: Reputation, b: Reputation) -> (r: bool)
    ensures
        r == a.level_with(b),
{
    let left = scaled(a.numerator, b.denominator);
    let right = scaled(b.numerator, a.denominator);
    left.0 == right.0 && left.1 == right.1
}

/// The order of fractions carries over: where `a` is at least `b` and `b`
/// is at least `c`, `a` is at least `c`, and higher where one of the two
/// steps is.
pub proof fn lemma_fraction_order(a: (int, int), b: (int, int), c: (int, int))
    requires
        a.1 > 0,
        b.1 > 0,
        c.1 > 0,
        higher(a, b) || level(a, b),
        higher(b, c) || level(b, c),
    ensures
        higher(a, c) || level(a, c),
        higher(a, b) || higher(b, c) ==> higher(a, c),
        level(a, b) && level(b, c) ==> level(a, c),
{
    let (a0, a1, b0, b1, c0, c1) = (a.0, a.1, b.0, b.1, c.0, c.1);
    let p = a0 * b1 - b0 * a1;
    let q = b0 * c1 - c0 * b1;
    let r = a0 * c1 - c0 * a1;
    // `r * b1` is `p * c1 + q * a1`, term by term.
    assert(p * c1 == (a0 * b1) * c1 - (b0 * a1) * c1) by (nonlinear_arith)
        requires
            p == a0 * b1 - b0 * a1,
    ;
    assert(q * a1 == (b0 * c1) * a1 - (c0 * b1) * a1) by (nonlinear_arith)
        requires
            q == b0 * c1 - c0 * b1,
    ;
    assert(r * b1 == (a0 * c1) * b1 - (c0 * a1) * b1) by (nonlinear_arith)
        requires
            r == a0 * c1 - c0 * a1,
    ;
    assert((a0 * b1) * c1 == (a0 * c1) * b1) by (nonlinear_arith);
    assert((b0 * a1) * c1 == (b0 * c1) * a1) by (nonlinear_arith);
    assert((c0 * b1) * a1 == (c0 * a1) * b1) by (nonlinear_arith);
    assert(r * b1 == p * c1 + q * a1);
    assert(p * c1 >= 0 && (p > 0 ==> p * c1 > 0) && (p == 0 ==> p * c1 == 0))
        by (nonlinear_arith)
        requires
            p >= 0,
            c1 > 0,
    ;
    assert(q * a1 >= 0 && (q > 0 ==> q * a1 > 0) && (q == 0 ==> q * a1 == 0))
        by (nonlinear_arith)
        requires
            q >= 0,
            a1 > 0,
    ;
    assert((r * b1 >= 0 ==> r >= 0) && (r * b1 > 0 ==> r > 0) && (r * b1 == 0 ==> r == 0))
        by (nonlinear_arith)
        requires
            b1 > 0,
    ;
}

} // verus!
