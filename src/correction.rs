//! The correction model: a raw sketch overlap divided by the completeness of
//! both assemblies, clamped to one, and the k-mer survival ratio taken from it.
use vstd::prelude::*;

use crate::quality::GenomeQuality;

verus! {

/// Scale of a product of two completeness values in basis points.
pub const FULL_SQUARED: u128 = 100_000_000;

/// Largest denominator that `corrected_jaccard` produces.
pub const MAX_CORRECTED_DEN: u128 = 0xffff_ffff_ffff_ffff_ffff_ffff;

/// A non-negative rational number `num / den`.
#[derive(Clone, Copy, Debug, PartialEq, Eq, Structural)]
pub struct Fraction {
    pub num: u128,
    pub den: u128,
}

impl Fraction {
    /// Well formed: a positive denominator.
    pub open spec fn wf(self) -> bool {
        self.den > 0
    }

    /// `self <= other` as rationals.
    pub open spec fn le(self, other: Fraction) -> bool {
        self.num * other.den <= other.num * self.den
    }

    /// A value in the closed unit interval.
    pub open spec fn in_unit(self) -> bool {
        self.wf() && self.num <= self.den
    }
}

/// Numerator of the corrected overlap: shared hashes scaled to basis points squared.
pub open spec fn corrected_num(common: u64) -> int {
    common * FULL_SQUARED
}

/// Denominator of the corrected overlap: all hashes times both completeness values.
pub open spec fn corrected_den(total: u64, a: GenomeQuality, b: GenomeQuality) -> int {
    total * (a.completeness_bp * b.completeness_bp)
}

/// `(common / total) / (completeness_a * completeness_b)`, clamped to at most one.
/// When the unclamped ratio is one or more (including an empty comparison with
/// `total == 0`) the result is exactly `1 / 1`.
pub open spec fn corrected_jaccard_spec(
    common: u64,
    total: u64,
    a: GenomeQuality,
    b: GenomeQuality,
) -> Fraction {
    let n = corrected_num(common);
    let d = corrected_den(total, a, b);
    if n >= d {
        Fraction { num: 1, den: 1 }
    } else {
        Fraction { num: n as u128, den: d as u128 }
    }
}

/// Corrects the raw sketch overlap `common / total` for the completeness of
/// both genomes; the result always lies in `[0, 1]`. A completeness of zero
/// has no correction.
pub fn corrected_jaccard(common: u64, total: u64, a: &GenomeQuality, b: &GenomeQuality) -> (r:
    Fraction)
    requires
        a.completeness_bp != 0,
        b.completeness_bp != 0,
    ensures
        r == corrected_jaccard_spec(common, total, *a, *b),
        r.in_unit(),
        r.den <= MAX_CORRECTED_DEN,
{
    let ca = a.completeness_bp as u128;
    let cb = b.completeness_bp as u128;
    assert(ca * cb <= 0xffff_ffff) by (nonlinear_arith)
        requires
            ca <= 0xffff,
            cb <= 0xffff,
    ;
    let q = ca * cb;
    assert((total as u128) * q <= 0xffff_ffff_ffff_ffff_ffff_ffff) by (nonlinear_arith)
        requires
            total <= 0xffff_ffff_ffff_ffff,
            q <= 0xffff_ffff,
    ;
    let d = (total as u128) * q;
    let n = (common as u128) * FULL_SQUARED;
    if n >= d {
        Fraction { num: 1, den: 1 }
    } else {
        Fraction { num: n, den: d }
    }
}

/// The k-mer survival ratio `2J / (1 + J)` of a Jaccard value `J = p / q`,
/// written as `2p / (p + q)`.
pub open spec fn survival_ratio_spec(j: Fraction) -> Fraction {
    Fraction { num: (2 * j.num) as u128, den: (j.num + j.den) as u128 }
}

/// The argument of the logarithm in the evolutionary distance
/// `d = -ln(2J / (1 + J)) / k`. It is zero exactly when `J` is zero (the
/// distance is then unbounded) and one exactly when `J` is one (distance zero).
pub fn survival_ratio(j: Fraction) -> (r: Fraction)
    requires
        j.in_unit(),
        j.den <= MAX_CORRECTED_DEN,
    ensures
        r == survival_ratio_spec(j),
        r.in_unit(),
        r.num == 0 <==> j.num == 0,
        r.num == r.den <==> j.num == j.den,
{
    Fraction { num: 2 * j.num, den: j.num + j.den }
}

/// The corrected overlap lies in the unit interval for every pair of quality
/// records, also where the division by completeness would exceed one.
pub proof fn lemma_corrected_in_unit(common: u64, total: u64, a: GenomeQuality, b: GenomeQuality)
    ensures
        corrected_jaccard_spec(common, total, a, b).in_unit(),
{
    let n = corrected_num(common);
    let d = corrected_den(total, a, b);
    let ca = a.completeness_bp as int;
    let cb = b.completeness_bp as int;
    assert(0 <= d <= MAX_CORRECTED_DEN) by (nonlinear_arith)
        requires
            d == total * (ca * cb),
            0 <= total <= 0xffff_ffff_ffff_ffff,
            0 <= ca <= 0xffff,
            0 <= cb <= 0xffff,
    ;
}

/// The corrected overlap, and the survival ratio taken from it, do not depend
/// on which genome comes first.
pub proof fn lemma_corrected_symmetric(
    common: u64,
    total: u64,
    a: GenomeQuality,
    b: GenomeQuality,
)
    ensures
        corrected_jaccard_spec(common, total, a, b) == corrected_jaccard_spec(common, total, b, a),
        survival_ratio_spec(corrected_jaccard_spec(common, total, a, b)) == survival_ratio_spec(
            corrected_jaccard_spec(common, total, b, a),
        ),
{
    assert(a.completeness_bp * b.completeness_bp == b.completeness_bp * a.completeness_bp)
        by (nonlinear_arith);
}

/// More shared content never lowers the survival ratio, so the evolutionary
/// distance `-ln(ratio) / k` never grows as the corrected overlap grows; at an
/// overlap of one the ratio is exactly one and the distance exactly zero.
pub proof fn lemma_survival_monotone(j1: Fraction, j2: Fraction)
    requires
        j1.in_unit(),
        j2.in_unit(),
        j1.le(j2),
        j1.den <= MAX_CORRECTED_DEN,
        j2.den <= MAX_CORRECTED_DEN,
    ensures
        survival_ratio_spec(j1).le(survival_ratio_spec(j2)),
        j2.num == j2.den ==> survival_ratio_spec(j2).num == survival_ratio_spec(j2).den,
{
    let p1 = j1.num as int;
    let q1 = j1.den as int;
    let p2 = j2.num as int;
    let q2 = j2.den as int;
    let s1 = survival_ratio_spec(j1);
    let s2 = survival_ratio_spec(j2);
    assert(s1.num == 2 * p1 && s1.den == p1 + q1);
    assert(s2.num == 2 * p2 && s2.den == p2 + q2);
    assert(2 * p1 * (p2 + q2) <= 2 * p2 * (p1 + q1)) by (nonlinear_arith)
        requires
            p1 * q2 <= p2 * q1,
    ;
}

} // verus!
