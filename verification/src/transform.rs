//! The affine view transform: translation and per-axis positive scale, no
//! shear and no rotation, mapping grid coordinates to screen pixels.
//!
//! All scalars are exact fixed-point numbers: an `i64` holds the value times
//! [`FP_ONE`]. Exact integer arithmetic keeps the transform invertible at
//! all times and makes the visual-stability pairing of grid resizes with
//! transform adjustments an identity rather than an approximation.

use vstd::prelude::*;
use vstd::arithmetic::div_mod::{
    lemma_fundamental_div_mod,
    lemma_fundamental_div_mod_converse,
    lemma_div_multiples_vanish,
    lemma_mod_bound,
};

verus! {

/// The fixed-point unit: scalars are stored as multiples of `1 / FP_ONE`.
pub const FP_ONE: i64 = 65536;

/// Initial zoom: screen pixels per grid unit, in fixed-point form.
pub const INITIAL_ZOOM: i64 = 128 * FP_ONE;

/// Largest zoom the orchestration layer allows.
pub const MAX_ZOOM: i64 = INITIAL_ZOOM * 2;

/// Smallest zoom the orchestration layer allows: a quarter of the initial
/// zoom.
pub const MIN_ZOOM: i64 = 32 * FP_ONE;

/// Bound on the magnitude of a translation component.
pub const TRANS_LIMIT: i64 = 0x1000_0000_0000_0000;

/// Bound on the magnitude of a screen coordinate fed to the transform.
pub const COORD_LIMIT: i64 = 0x2000_0000_0000_0000;

/// Bound on the magnitude of the dividend of [`floor_div`].
pub const DIVIDEND_LIMIT: i64 = 0x4000_0000_0000_0000;

/// Bound on a single rescale factor and on a grid-unit translation step.
pub const FACTOR_LIMIT: i64 = 0x1_0000_0000;

/// Division rounding toward negative infinity. For a positive divisor this
/// agrees with the mathematical `/` of specifications.
pub fn floor_div(a: i64, b: i64) -> (q: i64)
    requires
        0 < b <= FACTOR_LIMIT,
        -DIVIDEND_LIMIT <= a <= DIVIDEND_LIMIT,
    ensures
        q == (a as int) / (b as int),
        b * q <= a < b * (q + 1),
{
    if a >= 0 {
        let qa = (a as u64) / (b as u64);
        proof {
            lemma_fundamental_div_mod(a as int, b as int);
            assert(b * ((a as int) / (b as int)) <= a < b * ((a as int) / (b as int) + 1))
                by (nonlinear_arith)
                requires
                    0 < b,
                    a == b * ((a as int) / (b as int)) + (a as int) % (b as int),
                    0 <= (a as int) % (b as int) < b,
            ;
            assert((a as int) / (b as int) <= a) by (nonlinear_arith)
                requires
                    0 <= a,
                    0 < b,
            ;
        }
        qa as i64
    } else {
        // floor(a / b) == -ceil(-a / b), and the ceiling of a division of
        // positives is (n + b - 1) / b rounded toward zero.
        let n = (-a) as u64;
        let ceilq = (n + (b as u64) - 1) / (b as u64);
        let q = -(ceilq as i64);
        proof {
            let ni = n as int;
            let bi = b as int;
            let m = ni + bi - 1;
            let cq = m / bi;
            lemma_fundamental_div_mod(m, bi);
            assert(cq <= m) by (nonlinear_arith)
                requires
                    0 <= m,
                    0 < bi,
                    m == bi * cq + m % bi,
                    0 <= m % bi,
            ;
            // bi * cq lands in [ni, ni + bi): the floor characterization of
            // the negated quotient.
            assert(ni <= bi * cq < ni + bi);
            assert(bi * (-cq) <= (a as int) < bi * ((-cq) + 1)) by (nonlinear_arith)
                requires
                    a == -ni,
                    ni <= bi * cq < ni + bi,
            ;
            assert((a as int) - bi * (-cq) < bi) by (nonlinear_arith)
                requires
                    bi * (-cq) <= (a as int),
                    (a as int) < bi * ((-cq) + 1),
            ;
            lemma_fundamental_div_mod_converse(a as int, bi, -cq, (a as int) - bi * (-cq));
        }
        q
    }
}

/// Dividing by a positive integer never grows a value's magnitude: the
/// quotient lies between zero and the dividend.
pub proof fn lemma_div_magnitude(a: int, b: int)
    requires
        1 <= b,
    ensures
        0 <= a ==> 0 <= a / b <= a,
        a < 0 ==> a <= a / b <= 0,
{
    lemma_fundamental_div_mod(a, b);
    lemma_mod_bound(a, b);
    let q = a / b;
    let r = a % b;
    if 0 <= a {
        assert(0 <= q <= a) by (nonlinear_arith)
            requires
                a == b * q + r,
                0 <= r < b,
                1 <= b,
                0 <= a,
        ;
    } else {
        assert(a <= q <= 0) by (nonlinear_arith)
            requires
                a == b * q + r,
                0 <= r < b,
                1 <= b,
                a < 0,
        ;
    }
}

/// The view transform. `sx`/`sy` are the screen pixels per grid unit on each
/// axis and `tx`/`ty` the screen position of grid origin, all fixed-point.
#[derive(Clone, Copy, PartialEq, Eq, Structural, Debug)]
pub struct Transform {
    pub sx: i64,
    pub sy: i64,
    pub tx: i64,
    pub ty: i64,
}

impl Transform {
    /// Well-formedness: both scales are positive (the transform has an
    /// exact inverse; zero scale is the degenerate case that must never be
    /// produced) and all components stay inside the machine bounds.
    pub open spec fn wf(&self) -> bool {
        &&& 0 < self.sx <= MAX_ZOOM
        &&& 0 < self.sy <= MAX_ZOOM
        &&& -TRANS_LIMIT <= self.tx <= TRANS_LIMIT
        &&& -TRANS_LIMIT <= self.ty <= TRANS_LIMIT
    }

    /// Screen x position (fixed-point pixels) of grid x coordinate `gx`.
    pub open spec fn apply_x(&self, gx: int) -> int {
        self.sx * gx + self.tx
    }

    /// Screen y position (fixed-point pixels) of grid y coordinate `gy`.
    pub open spec fn apply_y(&self, gy: int) -> int {
        self.sy * gy + self.ty
    }

    /// Grid x cell address of screen x position `px`: the inverse transform
    /// followed by flooring.
    pub open spec fn grid_x(&self, px: int) -> int {
        (px - self.tx) / (self.sx as int)
    }

    /// Grid y cell address of screen y position `py`.
    pub open spec fn grid_y(&self, py: int) -> int {
        (py - self.ty) / (self.sy as int)
    }

    /// The identity transform: one fixed-point unit per grid unit, origin
    /// at the screen origin.
    pub fn identity() -> (r: Transform)
        ensures
            r.wf(),
            r.sx == FP_ONE,
            r.sy == FP_ONE,
            r.tx == 0,
            r.ty == 0,
    {
        Transform { sx: FP_ONE, sy: FP_ONE, tx: 0, ty: 0 }
    }

    /// A pure scaling transform.
    pub fn new_scaling(s: i64) -> (r: Transform)
        requires
            0 < s <= MAX_ZOOM,
        ensures
            r.wf(),
            r.sx == s,
            r.sy == s,
            r.tx == 0,
            r.ty == 0,
    {
        Transform { sx: s, sy: s, tx: 0, ty: 0 }
    }

    /// This transform followed by a screen-space translation of
    /// `(dx, dy)` fixed-point pixels. Scale is untouched.
    pub fn translated(self, dx: i64, dy: i64) -> (r: Transform)
        requires
            self.wf(),
            -COORD_LIMIT <= dx <= COORD_LIMIT,
            -COORD_LIMIT <= dy <= COORD_LIMIT,
            -TRANS_LIMIT <= self.tx + dx <= TRANS_LIMIT,
            -TRANS_LIMIT <= self.ty + dy <= TRANS_LIMIT,
        ensures
            r.wf(),
            r.sx == self.sx,
            r.sy == self.sy,
            r.tx == self.tx + dx,
            r.ty == self.ty + dy,
    {
        Transform { sx: self.sx, sy: self.sy, tx: self.tx + dx, ty: self.ty + dy }
    }

    /// This transform rescaled by `factor` (fixed-point) around the screen
    /// anchor `(ax, ay)`: the anchor maps to the same grid position before
    /// and after. The callers keep the cumulative scale inside the zoom
    /// bounds; this operation itself performs no clamping.
    pub fn scaled_at(self, factor: i64, ax: i64, ay: i64) -> (r: Transform)
        requires
            self.wf(),
            0 < factor <= FACTOR_LIMIT,
            -COORD_LIMIT <= ax <= COORD_LIMIT,
            -COORD_LIMIT <= ay <= COORD_LIMIT,
            -DIVIDEND_LIMIT <= factor * (self.tx - ax) <= DIVIDEND_LIMIT,
            -DIVIDEND_LIMIT <= factor * (self.ty - ay) <= DIVIDEND_LIMIT,
            0 < factor * self.sx / (FP_ONE as int) <= MAX_ZOOM,
            0 < factor * self.sy / (FP_ONE as int) <= MAX_ZOOM,
            -TRANS_LIMIT <= ax + factor * (self.tx - ax) / (FP_ONE as int) <= TRANS_LIMIT,
            -TRANS_LIMIT <= ay + factor * (self.ty - ay) / (FP_ONE as int) <= TRANS_LIMIT,
        ensures
            r.wf(),
            r.sx == factor * self.sx / (FP_ONE as int),
            r.sy == factor * self.sy / (FP_ONE as int),
            r.tx == ax + factor * (self.tx - ax) / (FP_ONE as int),
            r.ty == ay + factor * (self.ty - ay) / (FP_ONE as int),
    {
        proof {
            assert(factor * self.sx <= FACTOR_LIMIT * MAX_ZOOM && 0 <= factor * self.sx)
                by (nonlinear_arith)
                requires
                    0 < factor <= FACTOR_LIMIT,
                    0 < self.sx <= MAX_ZOOM,
            ;
            assert(factor * self.sy <= FACTOR_LIMIT * MAX_ZOOM && 0 <= factor * self.sy)
                by (nonlinear_arith)
                requires
                    0 < factor <= FACTOR_LIMIT,
                    0 < self.sy <= MAX_ZOOM,
            ;
        }
        let nsx = floor_div(factor * self.sx, FP_ONE);
        let nsy = floor_div(factor * self.sy, FP_ONE);
        let ntx = ax + floor_div(factor * (self.tx - ax), FP_ONE);
        let nty = ay + floor_div(factor * (self.ty - ay), FP_ONE);
        Transform { sx: nsx, sy: nsy, tx: ntx, ty: nty }
    }

    /// This transform preceded by a translation of `(dx, dy)` grid units:
    /// the companion adjustment of a grid resize. Grid position `(x, y)`
    /// under the result maps to the same screen pixel as `(x + dx, y + dy)`
    /// under `self`.
    pub fn prepended_grid_translation(self, dx: i64, dy: i64) -> (r: Transform)
        requires
            self.wf(),
            -FACTOR_LIMIT <= dx <= FACTOR_LIMIT,
            -FACTOR_LIMIT <= dy <= FACTOR_LIMIT,
            -TRANS_LIMIT <= self.tx + self.sx * dx <= TRANS_LIMIT,
            -TRANS_LIMIT <= self.ty + self.sy * dy <= TRANS_LIMIT,
        ensures
            r.wf(),
            r.sx == self.sx,
            r.sy == self.sy,
            r.tx == self.tx + self.sx * dx,
            r.ty == self.ty + self.sy * dy,
    {
        proof {
            assert(-MAX_ZOOM * FACTOR_LIMIT <= self.sx * dx <= MAX_ZOOM * FACTOR_LIMIT)
                by (nonlinear_arith)
                requires
                    0 < self.sx <= MAX_ZOOM,
                    -FACTOR_LIMIT <= dx <= FACTOR_LIMIT,
            ;
            assert(-MAX_ZOOM * FACTOR_LIMIT <= self.sy * dy <= MAX_ZOOM * FACTOR_LIMIT)
                by (nonlinear_arith)
                requires
                    0 < self.sy <= MAX_ZOOM,
                    -FACTOR_LIMIT <= dy <= FACTOR_LIMIT,
            ;
        }
        Transform {
            sx: self.sx,
            sy: self.sy,
            tx: self.tx + self.sx * dx,
            ty: self.ty + self.sy * dy,
        }
    }

    /// Screen position (fixed-point pixels) of a grid coordinate.
    pub fn apply(&self, gx: i64, gy: i64) -> (r: (i64, i64))
        requires
            self.wf(),
            -FACTOR_LIMIT <= gx <= FACTOR_LIMIT,
            -FACTOR_LIMIT <= gy <= FACTOR_LIMIT,
        ensures
            r.0 == self.apply_x(gx as int),
            r.1 == self.apply_y(gy as int),
    {
        proof {
            assert(-MAX_ZOOM * FACTOR_LIMIT <= self.sx * gx <= MAX_ZOOM * FACTOR_LIMIT)
                by (nonlinear_arith)
                requires
                    0 < self.sx <= MAX_ZOOM,
                    -FACTOR_LIMIT <= gx <= FACTOR_LIMIT,
            ;
            assert(-MAX_ZOOM * FACTOR_LIMIT <= self.sy * gy <= MAX_ZOOM * FACTOR_LIMIT)
                by (nonlinear_arith)
                requires
                    0 < self.sy <= MAX_ZOOM,
                    -FACTOR_LIMIT <= gy <= FACTOR_LIMIT,
            ;
        }
        (self.sx * gx + self.tx, self.sy * gy + self.ty)
    }

    /// The signed grid cell address a screen position falls in: the inverse
    /// transform applied to the point, floored on each axis. The result may
    /// be negative or at or beyond the board's size; that is the trigger
    /// for board growth.
    pub fn grid_of_screen(&self, px: i64, py: i64) -> (r: (i64, i64))
        requires
            self.wf(),
            -COORD_LIMIT <= px <= COORD_LIMIT,
            -COORD_LIMIT <= py <= COORD_LIMIT,
        ensures
            r.0 == self.grid_x(px as int),
            r.1 == self.grid_y(py as int),
            self.sx * r.0 <= px - self.tx < self.sx * (r.0 + 1),
            self.sy * r.1 <= py - self.ty < self.sy * (r.1 + 1),
    {
        let gx = floor_div(px - self.tx, self.sx);
        let gy = floor_div(py - self.ty, self.sy);
        (gx, gy)
    }

    /// Hit-testing inverts the transform exactly: the screen position of
    /// any grid coordinate maps back to that coordinate.
    pub proof fn lemma_apply_then_grid(self, gx: int, gy: int)
        requires
            self.wf(),
        ensures
            self.grid_x(self.apply_x(gx)) == gx,
            self.grid_y(self.apply_y(gy)) == gy,
    {
        lemma_div_multiples_vanish(gx, self.sx as int);
        lemma_div_multiples_vanish(gy, self.sy as int);
    }
}

} // verus!
