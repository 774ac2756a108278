//! Scalars, two-component vectors and the rounding rules shared by the rest of
//! the crate.

use vstd::prelude::*;

verus! {

/// Number of time-step units in one second.
pub const MICROS_PER_SECOND: i128 = 1_000_000;

/// The value nearest to `v` that a coordinate can hold.
pub open spec fn saturate(v: int) -> int {
    if v < i32::MIN as int {
        i32::MIN as int
    } else if v > i32::MAX as int {
        i32::MAX as int
    } else {
        v
    }
}

/// Quotient of `a` by a positive `b`, rounded toward zero.
pub open spec fn div_toward_zero(a: int, b: int) -> int
    recommends
        b > 0,
{
    if a >= 0 {
        a / b
    } else {
        -((-a) / b)
    }
}

/// What a per-second `rate` amounts to over `dt_micros` microseconds, rounded
/// toward zero.
pub open spec fn over_time(rate: int, dt_micros: int) -> int {
    div_toward_zero(rate * dt_micros, MICROS_PER_SECOND as int)
}

/// `over_time` never grows a rate by more than the number of whole seconds a
/// step can last, and keeps its sign.
pub proof fn lemma_over_time_bound(rate: int, dt_micros: int)
    requires
        0 <= dt_micros <= u32::MAX,
    ensures
        rate >= 0 ==> 0 <= over_time(rate, dt_micros) <= rate * 4295,
        rate <= 0 ==> rate * 4295 <= over_time(rate, dt_micros) <= 0,
{
    assert(rate >= 0 ==> 0 <= (rate * dt_micros) / 1_000_000 <= rate * 4295) by (nonlinear_arith)
        requires
            0 <= dt_micros <= 4294967295,
    ;
    assert(rate <= 0 ==> 0 <= (-(rate * dt_micros)) / 1_000_000 <= (-rate) * 4295)
        by (nonlinear_arith)
        requires
            0 <= dt_micros <= 4294967295,
    ;
    assert(rate <= 0 ==> rate * dt_micros <= 0) by (nonlinear_arith)
        requires
            0 <= dt_micros,
    ;
    assert(rate >= 0 ==> rate * dt_micros >= 0) by (nonlinear_arith)
        requires
            0 <= dt_micros,
    ;
}

/// Clamps a wide intermediate result into the coordinate range.
pub fn narrow(v: i128) -> (r: i32)
    ensures
        r == saturate(v as int),
{
    if v < i32::MIN as i128 {
        i32::MIN
    } else if v > i32::MAX as i128 {
        i32::MAX
    } else {
        v as i32
    }
}

/// Largest magnitude of a rate that `rate_over_time` accepts: two to the
/// ninetieth power.
pub const RATE_LIMIT: i128 = 0x400_0000_0000_0000_0000_0000;

/// Computes `over_time` for a rate small enough that the product cannot
/// overflow.
pub fn rate_over_time(rate: i128, dt_micros: u32) -> (r: i128)
    requires
        -RATE_LIMIT <= rate <= RATE_LIMIT,
    ensures
        r == over_time(rate as int, dt_micros as int),
        rate >= 0 ==> 0 <= r <= rate * 4295,
        rate <= 0 ==> rate * 4295 <= r <= 0,
{
    proof {
        lemma_over_time_bound(rate as int, dt_micros as int);
    }
    let dt: i128 = dt_micros as i128;
    assert(-0x400_0000_0000_0000_0000_0000 * 0x1_0000_0000 <= rate * dt
        <= 0x400_0000_0000_0000_0000_0000 * 0x1_0000_0000) by (nonlinear_arith)
        requires
            -0x400_0000_0000_0000_0000_0000 <= rate <= 0x400_0000_0000_0000_0000_0000,
            0 <= dt < 0x1_0000_0000,
    ;
    (rate * dt) / MICROS_PER_SECOND
}

/// A point, displacement, velocity or force in the plane.
#[derive(Clone, Copy, Debug, PartialEq, Eq, Structural)]
pub struct Vector2 {
    pub x: i32,
    pub y: i32,
}

impl Vector2 {
    pub fn new(x: i32, y: i32) -> (v: Vector2)
        ensures
            v == (Vector2 { x, y }),
    {
        Vector2 { x, y }
    }

    /// The vector with both components equal to `s`.
    pub fn splat(s: i32) -> (v: Vector2)
        ensures
            v == (Vector2 { x: s, y: s }),
    {
        Vector2 { x: s, y: s }
    }

    pub open spec fn zero() -> Vector2 {
        Vector2 { x: 0, y: 0 }
    }
}

} // verus!
