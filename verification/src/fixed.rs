use vstd::prelude::*;
use vstd::arithmetic::div_mod::{lemma_div_is_ordered, lemma_div_pos_is_pos, lemma_div_by_multiple};

verus! {

/// Scale of the fixed-point representation: every scalar quantity
/// (coordinates, velocities, radii, seconds) is an `i64` counting
/// thousandths of a unit.
pub const SCALE: i64 = 1000;

/// Largest magnitude accepted for the configuration scalars of a system
/// (emission point, gravity, initial velocity, jitter amount) when a tick
/// is taken: one billion units.
pub const COORD_LIMIT: i64 = 1_000_000_000_000;

/// Largest time step accepted by a tick: one thousand seconds.
pub const DELTA_LIMIT: i64 = 1_000_000;

/// Largest magnitude accepted for the fields of a live particle when a
/// tick is taken. A freshly spawned particle stays under this limit even
/// with maximal jitter.
pub const PART_LIMIT: i64 = 3_000_000_000_000;

/// Quotient by the scale, rounded toward zero (the rounding of the
/// executable fixed-point multiplication).
pub open spec fn div_fp(p: int) -> int {
    if p >= 0 {
        p / (SCALE as int)
    } else {
        -((-p) / (SCALE as int))
    }
}

/// Product of two fixed-point scalars: the exact integer product,
/// scaled back down with rounding toward zero.
pub open spec fn mul_fp_spec(a: int, b: int) -> int {
    div_fp(a * b)
}

/// Rounding toward zero never enlarges a bound: if `|p| <= m * SCALE`
/// then `|div_fp(p)| <= m`.
pub proof fn lemma_div_fp_bound(p: int, m: int)
    requires
        -(m * (SCALE as int)) <= p <= m * (SCALE as int),
        0 <= m,
    ensures
        -m <= div_fp(p) <= m,
{
    if p >= 0 {
        lemma_div_pos_is_pos(p, SCALE as int);
        lemma_div_is_ordered(p, m * (SCALE as int), SCALE as int);
        lemma_div_by_multiple(m, SCALE as int);
    } else {
        lemma_div_pos_is_pos(-p, SCALE as int);
        lemma_div_is_ordered(-p, m * (SCALE as int), SCALE as int);
        lemma_div_by_multiple(m, SCALE as int);
    }
}

/// Bound on a fixed-point product from bounds on its factors:
/// if `|a| <= aa`, `|b| <= bb` and `aa * bb <= m * SCALE`, then
/// `|mul_fp_spec(a, b)| <= m`.
pub proof fn lemma_mul_fp_bound(a: int, b: int, aa: int, bb: int, m: int)
    requires
        -aa <= a <= aa,
        -bb <= b <= bb,
        0 <= aa,
        0 <= bb,
        aa * bb <= m * (SCALE as int),
        0 <= m,
    ensures
        -m <= mul_fp_spec(a, b) <= m,
{
    assert(-(aa * bb) <= a * b <= aa * bb) by (nonlinear_arith)
        requires
            -aa <= a <= aa,
            -bb <= b <= bb,
            0 <= aa,
            0 <= bb,
    ;
    lemma_div_fp_bound(a * b, m);
}

/// Fixed-point multiplication: computes `a * b / SCALE` exactly, with the
/// intermediate product held in 128 bits and the quotient rounded toward
/// zero.
pub fn mul_fp(a: i64, b: i64) -> (r: i64)
    requires
        i64::MIN < a,
        i64::MIN < b,
        -(i64::MAX as int) <= mul_fp_spec(a as int, b as int) <= i64::MAX as int,
    ensures
        r as int == mul_fp_spec(a as int, b as int),
{
    let neg = (a < 0) != (b < 0);
    let ma: u64 = if a < 0 { (-a) as u64 } else { a as u64 };
    let mb: u64 = if b < 0 { (-b) as u64 } else { b as u64 };
    proof {
        assert((ma as int) * (mb as int) <= (i64::MAX as int) * (i64::MAX as int)) by (nonlinear_arith)
            requires
                0 <= ma as int <= i64::MAX as int,
                0 <= mb as int <= i64::MAX as int,
        ;
    }
    let p: u128 = (ma as u128) * (mb as u128);
    proof {
        let ab = (a as int) * (b as int);
        assert((p as int == if ab >= 0 { ab } else { -ab }) && (ab >= 0 <==> !neg || ab == 0))
            by (nonlinear_arith)
            requires
                p as int == (ma as int) * (mb as int),
                neg == ((a < 0) != (b < 0)),
                a < 0 ==> ma as int == -(a as int),
                a >= 0 ==> ma as int == a as int,
                b < 0 ==> mb as int == -(b as int),
                b >= 0 ==> mb as int == b as int,
                ab == (a as int) * (b as int),
        ;
    }
    let q: u128 = p / (SCALE as u128);
    let qi: i64 = q as i64;
    if neg {
        -qi
    } else {
        qi
    }
}

/// A two-dimensional vector of fixed-point scalars.
#[derive(Clone, Copy, PartialEq, Eq, Structural, Debug)]
pub struct Vec2 {
    pub x: i64,
    pub y: i64,
}

/// Mathematical counterpart of `Vec2`: both coordinates as unbounded
/// integers (still in thousandths of a unit).
pub ghost struct Vec2Model {
    pub x: int,
    pub y: int,
}

impl View for Vec2 {
    type V = Vec2Model;

    open spec fn view(&self) -> Vec2Model {
        Vec2Model { x: self.x as int, y: self.y as int }
    }
}

/// Builds a vector from its two coordinates.
pub fn vec2(x: i64, y: i64) -> (v: Vec2)
    ensures
        v == (Vec2 { x, y }),
{
    Vec2 { x, y }
}

} // verus!
