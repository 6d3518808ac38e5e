//! Points of Grumpkin found from an x-coordinate.

use vstd::prelude::*;
use crate::field::{Fq, fq_modulus, fq_neg, fq_mul, is_square, fq_sqrt_root};
use crate::grumpkin::{GPoint, curve_rhs, curve_coeff_b, on_curve};

verus! {

/// The square root that is kept for a y-coordinate: `y` itself when it is a
/// square, else `-y`.
pub open spec fn canonical_y_spec(y: nat) -> nat {
    if is_square(y) {
        y
    } else {
        fq_neg(y)
    }
}

/// The point that `try_make_point` finds for `x`, if any: `y` is the kept root
/// of `x^3 - 17`, which must itself be a square, and `(x, y)` must lie on the curve.
pub open spec fn try_make_point_spec(x: nat) -> Option<(nat, nat)> {
    let y_sq = curve_rhs(x);
    if !is_square(y_sq) {
        None
    } else {
        let y = canonical_y_spec(fq_sqrt_root(y_sq));
        if !is_square(y) {
            None
        } else if on_curve(x, y) {
            Some((x, y))
        } else {
            None
        }
    }
}

/// A value and its negation have the same square.
pub proof fn lemma_neg_square(s: nat)
    ensures
        fq_mul(fq_neg(s), fq_neg(s)) == fq_mul(s, s),
{
    reveal(fq_neg);
    reveal(fq_mul);
    let p: int = fq_modulus() as int;
    let t: int = (s % fq_modulus()) as int;
    vstd::arithmetic::div_mod::lemma_mul_mod_noop(s as int, s as int, p);
    if t == 0 {
        assert(fq_neg(s) == 0);
        assert(0nat * 0nat == 0) by (nonlinear_arith);
    } else {
        assert(fq_neg(s) == p - t) by {
            vstd::arithmetic::div_mod::lemma_small_mod((p - t) as nat, p as nat);
        }
        assert((p - t) * (p - t) == p * (p - 2 * t) + t * t) by (nonlinear_arith);
        vstd::arithmetic::div_mod::lemma_mod_multiples_vanish(p - 2 * t, t * t, p);
    }
}

/// The affine point with x-coordinate `x` whose y-coordinate is the kept root
/// of `x^3 - 17`, when that root exists, is a square, and lies on the curve.
pub fn try_make_point(x: Fq) -> (r: Option<GPoint>)
    ensures
        match r {
            Some(p) => try_make_point_spec(x@) == Some((p.x@, p.y@)) && !p.infinity && p.x == x,
            None => try_make_point_spec(x@) is None,
        },
        r is None <==> !(is_square(curve_rhs(x@)) && is_square(
            canonical_y_spec(fq_sqrt_root(curve_rhs(x@))),
        )),
        r matches Some(p) ==> on_curve(x@, p.y@) && is_square(p.y@),
{
    let x_cube = x.square().times(&x);
    let y_sq = x_cube.plus(&curve_coeff_b());
    let y_raw = match y_sq.sqrt() {
        Some(v) => v,
        None => return None,
    };
    let y = canonical_y(y_raw);
    match y.sqrt() {
        Some(_) => {},
        None => return None,
    }
    let pt = GPoint::new_unchecked(x, y);
    proof {
        lemma_neg_square(y_raw@);
    }
    if pt.is_on_curve() {
        Some(pt)
    } else {
        None
    }
}

/// `y` when `y` is a square, else `-y`.
pub fn canonical_y(y: Fq) -> (r: Fq)
    ensures
        r@ == canonical_y_spec(y@),
{
    if y.sqrt().is_some() {
        y
    } else {
        y.negate()
    }
}

/// Whether the point is the point at infinity or satisfies the curve equation.
pub fn is_in_subgroup(pt: &GPoint) -> (r: bool)
    ensures
        r == (pt.infinity || on_curve(pt.x@, pt.y@)),
{
    pt.is_on_curve()
}

} // verus!
