//! Fixed-point 2D affine transforms.
//!
//! A transform holds six entries `xx yx xy yy dx dy`, each an `i64` counting
//! ten-thousandths (see [`crate::num`]). Composition is matrix multiplication
//! with truncating fixed-point rounding; every entry is kept inside
//! `[-COORD_LIMIT, COORD_LIMIT]` by saturation, so the operations are total
//! over well-formed inputs and never overflow.

use vstd::prelude::*;
use vstd::string::StringExecFns;
use crate::num::{iabs, scalar_digits, scalar_to_dec};

verus! {

/// Largest magnitude a transform entry may take.
pub const COORD_LIMIT: i64 = 140737488355328;

/// Fixed-point units per whole unit, as an `i64`.
pub const ONE: i64 = 10000;

/// A 2D affine transform: linear part `xx yx xy yy`, translation `dx dy`.
#[derive(Clone, Copy, PartialEq, Eq, Structural, Debug)]
pub struct Transform {
    pub xx: i64,
    pub yx: i64,
    pub xy: i64,
    pub yy: i64,
    pub dx: i64,
    pub dy: i64,
}

/// Saturation of `v` into the allowed entry range.
pub open spec fn clamp(v: int) -> int {
    if v > COORD_LIMIT as int {
        COORD_LIMIT as int
    } else if v < -(COORD_LIMIT as int) {
        -(COORD_LIMIT as int)
    } else {
        v
    }
}

/// Division of `n` by `d`, truncating toward zero (`d != 0`).
pub open spec fn tdiv(n: int, d: int) -> int {
    let q = (iabs(n) / iabs(d)) as int;
    if (n < 0) <==> (d < 0) {
        q
    } else {
        -q
    }
}

/// A well-formed transform keeps every entry inside the allowed range.
pub open spec fn t_wf(t: Transform) -> bool {
    &&& iabs(t.xx as int) <= COORD_LIMIT as nat
    &&& iabs(t.yx as int) <= COORD_LIMIT as nat
    &&& iabs(t.xy as int) <= COORD_LIMIT as nat
    &&& iabs(t.yy as int) <= COORD_LIMIT as nat
    &&& iabs(t.dx as int) <= COORD_LIMIT as nat
    &&& iabs(t.dy as int) <= COORD_LIMIT as nat
}

/// The identity transform.
pub open spec fn identity_spec() -> Transform {
    Transform { xx: ONE, yx: 0, xy: 0, yy: ONE, dx: 0, dy: 0 }
}

/// One linear entry of the product `a * b`.
pub open spec fn lin_entry(a1: int, b1: int, a2: int, b2: int) -> int {
    clamp(tdiv(a1 * b1 + a2 * b2, ONE as int))
}

/// One translation entry of the product `a * b`.
pub open spec fn trans_entry(a1: int, b1: int, a2: int, b2: int, ad: int) -> int {
    clamp(tdiv(a1 * b1 + a2 * b2, ONE as int) + ad)
}

/// The matrix product `a * b`: `b` is applied first, then `a`.
pub open spec fn compose_spec(a: Transform, b: Transform) -> Transform {
    Transform {
        xx: lin_entry(a.xx as int, b.xx as int, a.xy as int, b.yx as int) as i64,
        yx: lin_entry(a.yx as int, b.xx as int, a.yy as int, b.yx as int) as i64,
        xy: lin_entry(a.xx as int, b.xy as int, a.xy as int, b.yy as int) as i64,
        yy: lin_entry(a.yx as int, b.xy as int, a.yy as int, b.yy as int) as i64,
        dx: trans_entry(a.xx as int, b.dx as int, a.xy as int, b.dy as int, a.dx as int) as i64,
        dy: trans_entry(a.yx as int, b.dx as int, a.yy as int, b.dy as int, a.dy as int) as i64,
    }
}

/// Determinant of the linear part, in squared fixed-point units.
pub open spec fn det2(t: Transform) -> int {
    (t.xx as int) * (t.yy as int) - (t.xy as int) * (t.yx as int)
}

/// The inverse transform, when the linear part is non-singular.
pub open spec fn invert_spec(t: Transform) -> Option<Transform> {
    if det2(t) == 0 {
        None
    } else {
        let s2 = (ONE as int) * (ONE as int);
        Some(
            Transform {
                xx: clamp(tdiv((t.yy as int) * s2, det2(t))) as i64,
                yx: clamp(tdiv(-(t.yx as int) * s2, det2(t))) as i64,
                xy: clamp(tdiv(-(t.xy as int) * s2, det2(t))) as i64,
                yy: clamp(tdiv((t.xx as int) * s2, det2(t))) as i64,
                dx: clamp(
                    tdiv(
                        ((t.xy as int) * (t.dy as int) - (t.yy as int) * (t.dx as int)) * (
                        ONE as int),
                        det2(t),
                    ),
                ) as i64,
                dy: clamp(
                    tdiv(
                        ((t.yx as int) * (t.dx as int) - (t.xx as int) * (t.dy as int)) * (
                        ONE as int),
                        det2(t),
                    ),
                ) as i64,
            },
        )
    }
}

/// The point `(x, y)` mapped through `t`.
pub open spec fn apply_spec(t: Transform, x: int, y: int) -> (int, int) {
    (
        clamp(tdiv((t.xx as int) * x + (t.xy as int) * y, ONE as int) + t.dx as int),
        clamp(tdiv((t.yx as int) * x + (t.yy as int) * y, ONE as int) + t.dy as int),
    )
}

impl Transform {
    /// The identity transform.
    pub fn identity() -> (r: Transform)
        ensures
            r == identity_spec(),
            t_wf(r),
    {
        Transform { xx: ONE, yx: 0, xy: 0, yy: ONE, dx: 0, dy: 0 }
    }

    /// Builds a transform from raw entries, saturating each into range.
    pub fn from_entries(xx: i64, yx: i64, xy: i64, yy: i64, dx: i64, dy: i64) -> (r: Transform)
        ensures
            r.xx as int == clamp(xx as int),
            r.yx as int == clamp(yx as int),
            r.xy as int == clamp(xy as int),
            r.yy as int == clamp(yy as int),
            r.dx as int == clamp(dx as int),
            r.dy as int == clamp(dy as int),
            t_wf(r),
    {
        Transform {
            xx: clamp_i64(xx),
            yx: clamp_i64(yx),
            xy: clamp_i64(xy),
            yy: clamp_i64(yy),
            dx: clamp_i64(dx),
            dy: clamp_i64(dy),
        }
    }

    /// The matrix product `self * other`: `other` first, then `self`.
    pub fn compose(&self, other: &Transform) -> (r: Transform)
        requires
            t_wf(*self),
            t_wf(*other),
        ensures
            r == compose_spec(*self, *other),
            t_wf(r),
    {
        let r = Transform {
            xx: lin_entry_exec(self.xx, other.xx, self.xy, other.yx),
            yx: lin_entry_exec(self.yx, other.xx, self.yy, other.yx),
            xy: lin_entry_exec(self.xx, other.xy, self.xy, other.yy),
            yy: lin_entry_exec(self.yx, other.xy, self.yy, other.yy),
            dx: trans_entry_exec(self.xx, other.dx, self.xy, other.dy, self.dx),
            dy: trans_entry_exec(self.yx, other.dx, self.yy, other.dy, self.dy),
        };
        r
    }

    /// The inverse transform, or `None` when the linear part is singular.
    pub fn invert(&self) -> (r: Option<Transform>)
        requires
            t_wf(*self),
        ensures
            r == invert_spec(*self),
            r is Some ==> t_wf(r->0),
    {
        let xx = self.xx as i128;
        let yx = self.yx as i128;
        let xy = self.xy as i128;
        let yy = self.yy as i128;
        let dx = self.dx as i128;
        let dy = self.dy as i128;
        proof {
            lemma_mul_bound(xx as int, yy as int, COORD_LIMIT as int);
            lemma_mul_bound(xy as int, yx as int, COORD_LIMIT as int);
        }
        let d = xx * yy - xy * yx;
        if d == 0 {
            None
        } else {
            let s2: i128 = 100000000;
            proof {
                assert(s2 as int == (ONE as int) * (ONE as int));
            }
            proof {
                lemma_mul_bound(yy as int, s2 as int, COORD_LIMIT as int);
                lemma_mul_bound(yx as int, s2 as int, COORD_LIMIT as int);
                lemma_mul_bound(xy as int, s2 as int, COORD_LIMIT as int);
                lemma_mul_bound(xx as int, s2 as int, COORD_LIMIT as int);
                lemma_mul_bound(xy as int, dy as int, COORD_LIMIT as int);
                lemma_mul_bound(yy as int, dx as int, COORD_LIMIT as int);
                lemma_mul_bound(yx as int, dx as int, COORD_LIMIT as int);
                lemma_mul_bound(xx as int, dy as int, COORD_LIMIT as int);
                lemma_mul_bound(
                    (xy as int) * (dy as int) - (yy as int) * (dx as int),
                    ONE as int,
                    2 * (COORD_LIMIT as int) * (COORD_LIMIT as int),
                );
                lemma_mul_bound(
                    (yx as int) * (dx as int) - (xx as int) * (dy as int),
                    ONE as int,
                    2 * (COORD_LIMIT as int) * (COORD_LIMIT as int),
                );
            }
            Some(
                Transform {
                    xx: div_clamp(yy * s2, d),
                    yx: div_clamp(-yx * s2, d),
                    xy: div_clamp(-xy * s2, d),
                    yy: div_clamp(xx * s2, d),
                    dx: div_clamp((xy * dy - yy * dx) * (ONE as i128), d),
                    dy: div_clamp((yx * dx - xx * dy) * (ONE as i128), d),
                },
            )
        }
    }

    /// Maps the point `(x, y)` through `self`.
    pub fn apply(&self, x: i64, y: i64) -> (r: (i64, i64))
        requires
            t_wf(*self),
        ensures
            (r.0 as int, r.1 as int) == apply_spec(*self, x as int, y as int),
    {
        let rx = trans_entry_exec_wide(self.xx, x, self.xy, y, self.dx);
        let ry = trans_entry_exec_wide(self.yx, x, self.yy, y, self.dy);
        (rx, ry)
    }
}

/// Saturates an `i64` into the allowed entry range.
fn clamp_i64(v: i64) -> (r: i64)
    ensures
        r as int == clamp(v as int),
{
    if v > COORD_LIMIT {
        COORD_LIMIT
    } else if v < -COORD_LIMIT {
        -COORD_LIMIT
    } else {
        v
    }
}

/// Saturates an `i128` into the allowed entry range.
fn clamp_i128(v: i128) -> (r: i64)
    ensures
        r as int == clamp(v as int),
{
    if v > COORD_LIMIT as i128 {
        COORD_LIMIT
    } else if v < -(COORD_LIMIT as i128) {
        -COORD_LIMIT
    } else {
        v as i64
    }
}

/// Bounds the product of two bounded factors.
proof fn lemma_mul_bound(a: int, b: int, m: int)
    requires
        iabs(a) <= m,
        iabs(b) <= COORD_LIMIT as int,
        0 <= m,
    ensures
        iabs(a * b) <= m * (COORD_LIMIT as int),
{
    assert(iabs(a * b) <= m * (COORD_LIMIT as int)) by (nonlinear_arith)
        requires
            iabs(a) <= m,
            iabs(b) <= COORD_LIMIT as int,
            0 <= m,
            iabs(a) == if a >= 0 { a } else { -a },
            iabs(b) == if b >= 0 { b } else { -b },
            iabs(a * b) == if a * b >= 0 { a * b } else { -(a * b) },
    ;
}

/// Truncating division of `n` by `d`, saturated into the entry range.
fn div_clamp(n: i128, d: i128) -> (r: i64)
    requires
        d != 0,
        iabs(n as int) < 0x4000_0000_0000_0000_0000_0000_0000_0000,
        iabs(d as int) < 0x4000_0000_0000_0000_0000_0000_0000_0000,
    ensures
        r as int == clamp(tdiv(n as int, d as int)),
{
    let nm: u128 = if n >= 0 {
        n as u128
    } else {
        (-n) as u128
    };
    let dm: u128 = if d >= 0 {
        d as u128
    } else {
        (-d) as u128
    };
    let q: u128 = nm / dm;
    proof {
        assert(nm as nat == iabs(n as int));
        assert(dm as nat == iabs(d as int));
        assert(q as nat == iabs(n as int) / iabs(d as int));
        vstd::arithmetic::div_mod::lemma_div_is_ordered_by_denominator(
            nm as int,
            1,
            dm as int,
        );
    }
    if (n < 0) == (d < 0) {
        clamp_i128(q as i128)
    } else {
        clamp_i128(-(q as i128))
    }
}

/// One saturated linear entry of a fixed-point matrix product.
fn lin_entry_exec(a1: i64, b1: i64, a2: i64, b2: i64) -> (r: i64)
    requires
        iabs(a1 as int) <= COORD_LIMIT as nat,
        iabs(b1 as int) <= COORD_LIMIT as nat,
        iabs(a2 as int) <= COORD_LIMIT as nat,
        iabs(b2 as int) <= COORD_LIMIT as nat,
    ensures
        r as int == lin_entry(a1 as int, b1 as int, a2 as int, b2 as int),
{
    proof {
        lemma_mul_bound(a1 as int, b1 as int, COORD_LIMIT as int);
        lemma_mul_bound(a2 as int, b2 as int, COORD_LIMIT as int);
    }
    let p: i128 = (a1 as i128) * (b1 as i128) + (a2 as i128) * (b2 as i128);
    div_clamp(p, ONE as i128)
}

/// One saturated translation entry of a fixed-point matrix product.
fn trans_entry_exec(a1: i64, b1: i64, a2: i64, b2: i64, ad: i64) -> (r: i64)
    requires
        iabs(a1 as int) <= COORD_LIMIT as nat,
        iabs(b1 as int) <= COORD_LIMIT as nat,
        iabs(a2 as int) <= COORD_LIMIT as nat,
        iabs(b2 as int) <= COORD_LIMIT as nat,
        iabs(ad as int) <= COORD_LIMIT as nat,
    ensures
        r as int == trans_entry(a1 as int, b1 as int, a2 as int, b2 as int, ad as int),
{
    trans_entry_exec_wide(a1, b1, a2, b2, ad)
}

/// As [`trans_entry_exec`], allowing arbitrary `b1`, `b2` coordinates.
fn trans_entry_exec_wide(a1: i64, b1: i64, a2: i64, b2: i64, ad: i64) -> (r: i64)
    requires
        iabs(a1 as int) <= COORD_LIMIT as nat,
        iabs(a2 as int) <= COORD_LIMIT as nat,
        iabs(ad as int) <= COORD_LIMIT as nat,
    ensures
        r as int == trans_entry(a1 as int, b1 as int, a2 as int, b2 as int, ad as int),
{
    proof {
        lemma_mul_bound(b1 as int, a1 as int, 0x8000_0000_0000_0000);
        lemma_mul_bound(b2 as int, a2 as int, 0x8000_0000_0000_0000);
        assert((b1 as int) * (a1 as int) == (a1 as int) * (b1 as int)) by (nonlinear_arith);
        assert((b2 as int) * (a2 as int) == (a2 as int) * (b2 as int)) by (nonlinear_arith);
    }
    let p: i128 = (a1 as i128) * (b1 as i128) + (a2 as i128) * (b2 as i128);
    let nm: u128 = if p >= 0 {
        p as u128
    } else {
        (-p) as u128
    };
    let q: u128 = nm / (ONE as u128);
    proof {
        assert(nm as nat == iabs(p as int));
        assert(q as nat == iabs(p as int) / iabs(ONE as int));
        vstd::arithmetic::div_mod::lemma_div_is_ordered_by_denominator(nm as int, 1, ONE as int);
    }
    let t: i128 = if p >= 0 {
        q as i128
    } else {
        -(q as i128)
    };
    proof {
        assert(t as int == tdiv(p as int, ONE as int));
    }
    clamp_i128(t + (ad as i128))
}

/// The value of the `matrix(...)` attribute describing `t`.
pub open spec fn matrix_str(t: Transform) -> Seq<char> {
    "matrix("@ + scalar_digits(t.xx as int) + " "@ + scalar_digits(t.yx as int) + " "@
        + scalar_digits(t.xy as int) + " "@ + scalar_digits(t.yy as int) + " "@ + scalar_digits(
        t.dx as int,
    ) + " "@ + scalar_digits(t.dy as int) + ")"@
}

/// Renders `t` as a `matrix(...)` attribute value.
pub fn matrix_attr_value(t: &Transform) -> (r: String)
    ensures
        r@ == matrix_str(*t),
{
    let mut s = String::from_str("matrix(");
    s.append(scalar_to_dec(t.xx).as_str());
    s.append(" ");
    s.append(scalar_to_dec(t.yx).as_str());
    s.append(" ");
    s.append(scalar_to_dec(t.xy).as_str());
    s.append(" ");
    s.append(scalar_to_dec(t.yy).as_str());
    s.append(" ");
    s.append(scalar_to_dec(t.dx).as_str());
    s.append(" ");
    s.append(scalar_to_dec(t.dy).as_str());
    s.append(")");
    proof {
        assert(s@ =~= matrix_str(*t));
    }
    s
}

} // verus!
