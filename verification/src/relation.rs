//! The increment-and-check map-to-curve relation: a message `m` goes to the
//! first point with x-coordinate `t + m * T` for a tweak `t < T`.

use vstd::prelude::*;
use crate::error::AtlasError;
use crate::field::{Fq, fq_add, fq_mul, fq_modulus, is_square, fq_sqrt_root, lemma_radix_unique};
use crate::grumpkin::{GPoint, curve_rhs, on_curve, curve_coeff_b, point_valid};
use crate::subgroup::{try_make_point, try_make_point_spec, is_in_subgroup};

verus! {

/// The x-coordinate tried for message `m` with tweak `t` and tweak bound `bound`.
pub open spec fn tweak_x(m: nat, t: nat, bound: nat) -> nat {
    fq_add(t, fq_mul(m, bound))
}

/// The search of `map` from tweak `t` on: the first tweak below `bound`
/// whose x-coordinate gives a point whose y-coordinate is a square, with
/// that point and the root of its y-coordinate, as (tweak, x, y, root).
pub open spec fn map_search(m: nat, bound: nat, t: nat) -> Option<(nat, nat, nat, nat)>
    decreases bound - t,
{
    if t >= bound {
        None
    } else {
        match try_make_point_spec(tweak_x(m, t, bound)) {
            Some((px, py)) => if is_square(py) {
                Some((t, px, py, fq_sqrt_root(py)))
            } else {
                map_search(m, bound, t + 1)
            },
            None => map_search(m, bound, t + 1),
        }
    }
}

/// What `map` finds for message `m` under tweak bound `bound`.
pub open spec fn map_spec(m: nat, bound: nat) -> Option<(nat, nat, nat, nat)> {
    map_search(m, bound, 0)
}

/// The point that `map` finds for message `m`, when it finds one.
pub open spec fn map_point(m: nat, bound: nat) -> (nat, nat, bool) {
    let s = map_spec(m, bound).unwrap();
    (s.1, s.2, false)
}

/// The error of `map` when no tweak below `bound` works.
pub open spec fn map_failure(bound: u64) -> AtlasError {
    AtlasError::MapToCurveFailed {
        attempts: bound as u32,
        tweak_bound: bound as u32,
    }
}

/// `(pt, w)` is what `map` returns for message `m`: the point and witness of the
/// search, which verify against `m`.
pub open spec fn map_output(m: nat, bound: u64, pt: GPoint, w: MapToCurveWitness) -> bool {
    &&& map_spec(m, bound as nat) == Some((w.tweak as nat, pt.x@, pt.y@, w.sqrt_witness@))
    &&& !pt.infinity
    &&& w.x == pt.x
    &&& verify_spec(m, bound as nat, pt@, w.tweak as nat, w.sqrt_witness@, w.x@) == Ok::<
        (),
        AtlasError,
    >(())
}

/// A point found by the search satisfies the curve equation.
proof fn lemma_map_search_on_curve(m: nat, bound: nat, t: nat)
    ensures
        map_search(m, bound, t) matches Some(s) ==> on_curve(s.1, s.2),
    decreases bound - t,
{
    if t < bound {
        lemma_map_search_on_curve(m, bound, t + 1);
    }
}

/// The point that `map` finds is a point of the curve group.
pub proof fn lemma_map_point_valid(m: nat, bound: nat)
    requires
        map_spec(m, bound) is Some,
    ensures
        point_valid(map_point(m, bound)),
{
    lemma_map_search_on_curve(m, bound, 0);
}

/// A point found by the search comes from a tweak below the bound, at the
/// x-coordinate of that tweak.
pub proof fn lemma_map_search_tweak(m: nat, bound: nat, t: nat)
    ensures
        map_search(m, bound, t) matches Some(s) ==> s.0 < bound && s.1 == tweak_x(m, s.0, bound),
    decreases bound - t,
{
    if t < bound {
        lemma_map_search_tweak(m, bound, t + 1);
    }
}

/// Below the field order, `t + m * T` does not wrap.
proof fn lemma_tweak_x_no_wrap(m: nat, t: nat, bound: nat)
    requires
        m * bound + t < fq_modulus(),
    ensures
        tweak_x(m, t, bound) == t + bound * m,
{
    reveal(fq_add);
    reveal(fq_mul);
    assert(m * bound == bound * m) by (nonlinear_arith);
    vstd::arithmetic::div_mod::lemma_small_mod((m * bound) as nat, fq_modulus());
    vstd::arithmetic::div_mod::lemma_small_mod((t + m * bound) as nat, fq_modulus());
}

/// Injectivity: on messages `m` with `(m + 1) * T` at most the field order
/// (so that `t + m * T` does not wrap), distinct messages map to points with
/// distinct x-coordinates.
pub proof fn law_map_injective(m1: nat, m2: nat, bound: nat)
    requires
        map_spec(m1, bound) is Some,
        map_spec(m2, bound) is Some,
        (m1 + 1) * bound <= fq_modulus(),
        (m2 + 1) * bound <= fq_modulus(),
        map_point(m1, bound).0 == map_point(m2, bound).0,
    ensures
        m1 == m2,
{
    lemma_map_search_tweak(m1, bound, 0);
    lemma_map_search_tweak(m2, bound, 0);
    let t1 = map_spec(m1, bound).unwrap().0;
    let t2 = map_spec(m2, bound).unwrap().0;
    assert(m1 * bound + t1 < fq_modulus()) by (nonlinear_arith)
        requires
            t1 < bound,
            (m1 + 1) * bound <= fq_modulus(),
    ;
    assert(m2 * bound + t2 < fq_modulus()) by (nonlinear_arith)
        requires
            t2 < bound,
            (m2 + 1) * bound <= fq_modulus(),
    ;
    lemma_tweak_x_no_wrap(m1, t1, bound);
    lemma_tweak_x_no_wrap(m2, t2, bound);
    lemma_radix_unique(t1, m1, t2, m2, bound);
}

/// The outcome of checking the witness `(tweak, z, wx)` for the point `p` and
/// message `m`: the tweak must lie in `[0, T)`, then the four conditions of
/// the relation, in order, each with its own error.
pub open spec fn verify_spec(
    m: nat,
    bound: nat,
    p: (nat, nat, bool),
    tweak: nat,
    z: nat,
    wx: nat,
) -> Result<(), AtlasError> {
    let expected_x = tweak_x(m, tweak, bound);
    if tweak >= bound {
        Err(AtlasError::InvalidWitness { reason: "tweak >= T" })
    } else if wx != expected_x || p.0 != expected_x {
        Err(AtlasError::InvalidWitness { reason: "x != t + m*T" })
    } else if fq_mul(z, z) != p.1 {
        Err(AtlasError::InvalidWitness { reason: "z^2 != y" })
    } else if fq_mul(p.1, p.1) != curve_rhs(p.0) {
        Err(AtlasError::InvalidWitness { reason: "y^2 != x^3 - 17" })
    } else if !(p.2 || on_curve(p.0, p.1)) {
        Err(AtlasError::InvalidWitness { reason: "point not on curve" })
    } else {
        Ok(())
    }
}

/// The relation that a verified witness `(tweak, z, wx)` establishes between
/// a message `m` and a point `p`, in plain modular arithmetic: the tweak is
/// below `T`, both the witness's and the point's x-coordinate are
/// `tweak + m * T`, `z` squares to the y-coordinate, and the point satisfies
/// `y^2 = x^3 - 17`.
pub open spec fn witness_relation(
    m: nat,
    bound: nat,
    p: (nat, nat, bool),
    tweak: nat,
    z: nat,
    wx: nat,
) -> bool {
    let q = fq_modulus();
    &&& tweak < bound
    &&& wx == (tweak + m * bound) % q
    &&& p.0 == (tweak + m * bound) % q
    &&& (z * z) % q == p.1
    &&& (p.1 * p.1) % q == (p.0 * p.0 * p.0 + q - 17) % (q as int)
}

/// `x^3 - 17` in the field, as one reduction of the integer expression.
proof fn lemma_curve_rhs_direct(x: nat)
    ensures
        curve_rhs(x) == (x * x * x + fq_modulus() - 17) % (fq_modulus() as int),
{
    reveal(fq_add);
    reveal(fq_mul);
    let q: int = fq_modulus() as int;
    vstd::arithmetic::div_mod::lemma_mul_mod_noop_left((x * x) as int, x as int, q);
    vstd::arithmetic::div_mod::lemma_add_mod_noop((x * x * x) as int, q - 17, q);
    vstd::arithmetic::div_mod::lemma_small_mod((fq_modulus() - 17) as nat, fq_modulus());
}

/// `tweak + m * T` in the field, as one reduction of the integer expression.
proof fn lemma_tweak_x_direct(m: nat, t: nat, bound: nat)
    requires
        t < fq_modulus(),
    ensures
        tweak_x(m, t, bound) == (t + m * bound) % fq_modulus(),
{
    reveal(fq_add);
    reveal(fq_mul);
    let q: int = fq_modulus() as int;
    vstd::arithmetic::div_mod::lemma_add_mod_noop_right(t as int, (m * bound) as int, q);
}

/// A witness verifies exactly when it establishes the relation: the check
/// succeeds if and only if the tweak is below `T`, the point's and the
/// witness's x-coordinates are both `tweak + m * T`, `z^2 = y` and
/// `y^2 = x^3 - 17`.
pub proof fn law_verify_is_relation(m: nat, bound: nat, p: (nat, nat, bool), tweak: nat, z: nat, wx: nat)
    requires
        bound < fq_modulus(),
    ensures
        verify_spec(m, bound, p, tweak, z, wx) is Ok <==> witness_relation(m, bound, p, tweak, z, wx),
{
    reveal(fq_mul);
    lemma_curve_rhs_direct(p.0);
    if tweak < bound {
        lemma_tweak_x_direct(m, tweak, bound);
    }
}

/// The witness of `map`: the tweak used, a square root of the
/// y-coordinate, and the x-coordinate.
#[derive(Debug, Clone, Copy, PartialEq, Eq, Structural)]
pub struct MapToCurveWitness {
    pub tweak: u64,
    pub sqrt_witness: Fq,
    pub x: Fq,
}

/// The increment-and-check relation with tweak bound `tweak_bound`.
#[derive(Debug, Clone, Copy)]
pub struct IncrementAndCheck {
    pub tweak_bound: u64,
}

/// A relation that maps messages to points and checks a point against a
/// message with a witness.
pub trait MapToCurveRelation {
    /// Map a message to a point of the curve, with the witness of the relation.
    fn map(&self, message: Fq) -> Result<(GPoint, MapToCurveWitness), AtlasError>;

    /// Check that `point` is related to `message` by `witness`.
    fn verify(&self, message: Fq, point: GPoint, witness: &MapToCurveWitness) -> Result<(), AtlasError>;
}

impl IncrementAndCheck {
    /// The relation with tweak bound `tweak_bound`.
    pub fn new(tweak_bound: u64) -> (r: Self)
        ensures
            r.tweak_bound == tweak_bound,
    {
        Self { tweak_bound }
    }

    /// The tweak bound as a field element.
    fn t_fq(&self) -> (r: Fq)
        ensures
            r@ == self.tweak_bound,
    {
        Fq::from_u64(self.tweak_bound)
    }
}

impl MapToCurveRelation for IncrementAndCheck {
    /// The first tweak `t < T` for which `t + m * T` is the x-coordinate of a
    /// point whose y-coordinate is a square; fails when there is none. The
    /// point found always verifies against the message and witness.
    fn map(&self, message: Fq) -> (r: Result<(GPoint, MapToCurveWitness), AtlasError>)
        ensures
            match r {
                Ok((pt, w)) => map_output(message@, self.tweak_bound, pt, w),
                Err(e) => map_spec(message@, self.tweak_bound as nat) is None && e == map_failure(
                    self.tweak_bound,
                ),
            },
    {
        let big_t = self.t_fq();
        let ghost m = message@;
        let ghost bound = self.tweak_bound as nat;
        let mut little_t: u64 = 0;
        while little_t < self.tweak_bound
            invariant
                little_t <= self.tweak_bound,
                big_t@ == bound,
                bound == self.tweak_bound,
                m == message@,
                map_spec(m, bound) == map_search(m, bound, little_t as nat),
            decreases self.tweak_bound - little_t,
        {
            let field_t = Fq::from_u64(little_t);
            let x = field_t.plus(&message.times(&big_t));
            if let Some(pt) = try_make_point(x) {
                if let Some(z) = pt.y.sqrt() {
                    let witness = MapToCurveWitness { tweak: little_t, sqrt_witness: z, x };
                    return Ok((pt, witness));
                }
            }
            little_t = little_t + 1;
        }
        Err(
            AtlasError::MapToCurveFailed {
                attempts: #[verifier::truncate] (self.tweak_bound as u32),
                tweak_bound: #[verifier::truncate] (self.tweak_bound as u32),
            },
        )
    }

    /// Checks, in order, that the tweak is below `T`, that `x = t + m * T`
    /// for both the witness and the point, that `z^2 = y`, that `y^2 = x^3 - 17`, and that the point is on
    /// the curve; the first that fails gives its error.
    fn verify(&self, message: Fq, point: GPoint, witness: &MapToCurveWitness) -> (r: Result<(), AtlasError>)
        ensures
            r == verify_spec(
                message@,
                self.tweak_bound as nat,
                point@,
                witness.tweak as nat,
                witness.sqrt_witness@,
                witness.x@,
            ),
            r is Ok <==> witness_relation(
                message@,
                self.tweak_bound as nat,
                point@,
                witness.tweak as nat,
                witness.sqrt_witness@,
                witness.x@,
            ),
    {
        proof {
            law_verify_is_relation(
                message@,
                self.tweak_bound as nat,
                point@,
                witness.tweak as nat,
                witness.sqrt_witness@,
                witness.x@,
            );
        }
        if witness.tweak >= self.tweak_bound {
            return Err(AtlasError::InvalidWitness { reason: "tweak >= T" });
        }
        let expected_x = Fq::from_u64(witness.tweak).plus(&message.times(&self.t_fq()));
        proof {
            Fq::lemma_view_eq(witness.x, expected_x);
            Fq::lemma_view_eq(point.x, expected_x);
        }
        if witness.x != expected_x || point.x != expected_x {
            return Err(AtlasError::InvalidWitness { reason: "x != t + m*T" });
        }
        let zz = witness.sqrt_witness.times(&witness.sqrt_witness);
        proof {
            Fq::lemma_view_eq(zz, point.y);
        }
        if zz != point.y {
            return Err(AtlasError::InvalidWitness { reason: "z^2 != y" });
        }
        let y_sq = point.y.times(&point.y);
        let x_cu = point.x.times(&point.x).times(&point.x);
        let f_x = x_cu.plus(&curve_coeff_b());
        proof {
            Fq::lemma_view_eq(y_sq, f_x);
        }
        if y_sq != f_x {
            return Err(AtlasError::InvalidWitness { reason: "y^2 != x^3 - 17" });
        }
        if !is_in_subgroup(&point) {
            return Err(AtlasError::InvalidWitness { reason: "point not on curve" });
        }
        Ok(())
    }
}

} // verus!
