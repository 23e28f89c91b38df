//! The editor view: the board, the affine view transform over it, and the
//! currently selected panel kind, versioned together because every board
//! resize must be paired atomically with a transform adjustment.

use vstd::prelude::*;

use crate::field::{Field, DIM_MAX, in_bounds};
use crate::input::{MouseButtons, MouseModifiers};
use crate::panel::{Panel, PanelKind};
use crate::transform::{
    Transform, FP_ONE, INITIAL_ZOOM, MAX_ZOOM, MIN_ZOOM, TRANS_LIMIT, COORD_LIMIT, DIVIDEND_LIMIT,
    FACTOR_LIMIT,
};

verus! {

/// The panel kind selected when the editor starts.
pub const DEFAULT_PANEL: PanelKind = PanelKind::Neutral;

/// Screen margin the centering operation keeps around the board,
/// fixed-point pixels.
pub const CENTER_MARGIN: i64 = 64 * FP_ONE;

/// Translation magnitude that leaves room for any single collapse
/// adjustment to stay inside [`TRANS_LIMIT`].
pub const COLLAPSE_ROOM: i64 = TRANS_LIMIT - MAX_ZOOM * DIM_MAX;

/// A view of a board under editing.
#[derive(Clone, Debug)]
pub struct EditorView {
    /// The grid-to-screen transform.
    pub view: Transform,
    /// The board of panels.
    pub field: Field,
    /// The panel kind the next placement writes.
    pub selected: PanelKind,
}

impl EditorView {
    /// Well-formedness of the whole editor state.
    pub open spec fn wf(&self) -> bool {
        &&& self.view.wf()
        &&& self.field.wf()
    }

    /// The example board: a six-by-six ring of typed panels under the
    /// initial zoom.
    pub fn new_example() -> (r: EditorView)
        ensures
            r.wf(),
            r.view.sx == INITIAL_ZOOM,
            r.view.sy == INITIAL_ZOOM,
            r.view.tx == 0,
            r.view.ty == 0,
            r.selected == DEFAULT_PANEL,
            r.field.spec_width() == 6,
            r.field.spec_height() == 6,
            forall|x: int, y: int| 0 <= x < 6 && 0 <= y < 6 ==>
                #[trigger] r.field.cell(x, y) == (Panel { kind: example_kind(x, y) }),
    {
        let e = Panel::new(PanelKind::Empty);
        let home = Panel::new(PanelKind::Home);
        let bonus = Panel::new(PanelKind::Bonus);
        let draw = Panel::new(PanelKind::Draw);
        let encounter = Panel::new(PanelKind::Encounter);
        let drop = Panel::new(PanelKind::Drop);

        let rows: Vec<Vec<Panel>> = vec![
            vec![home,      bonus, draw,      encounter, drop,  home],
            vec![drop,      e,     e,         e,         e,     bonus],
            vec![encounter, e,     e,         e,         e,     draw],
            vec![draw,      e,     e,         e,         e,     encounter],
            vec![bonus,     e,     e,         e,         e,     drop],
            vec![home,      drop,  encounter, draw,      bonus, home],
        ];
        proof {
            assert forall|y: int| 0 <= y < rows@.len() implies
                #[trigger] rows@[y]@.len() == rows@[0]@.len() by {
            }
        }
        let field = Field::new_slice(&rows);
        let r = EditorView {
            view: Transform::new_scaling(INITIAL_ZOOM),
            field,
            selected: DEFAULT_PANEL,
        };
        proof {
            assert forall|x: int, y: int| 0 <= x < 6 && 0 <= y < 6 implies
                #[trigger] r.field.cell(x, y) == (Panel { kind: example_kind(x, y) }) by {
                assert(r.field.cell(x, y) == rows@[y]@[x]);
            }
        }
        r
    }

    /// Borrows the board as mutable.
    pub fn field_mut(&mut self) -> (r: &mut Field)
        ensures
            *r == old(self).field,
            final(self).field == *final(r),
            final(self).view == old(self).view,
            final(self).selected == old(self).selected,
    {
        &mut self.field
    }

    /// Translates the view by a screen-space delta, in fixed-point pixels.
    /// Scale is untouched.
    pub fn pan(&mut self, pan: (i64, i64))
        requires
            old(self).wf(),
            -COORD_LIMIT <= pan.0 <= COORD_LIMIT,
            -COORD_LIMIT <= pan.1 <= COORD_LIMIT,
            -TRANS_LIMIT <= old(self).view.tx + pan.0 <= TRANS_LIMIT,
            -TRANS_LIMIT <= old(self).view.ty + pan.1 <= TRANS_LIMIT,
        ensures
            final(self).wf(),
            final(self).view.sx == old(self).view.sx,
            final(self).view.sy == old(self).view.sy,
            final(self).view.tx == old(self).view.tx + pan.0,
            final(self).view.ty == old(self).view.ty + pan.1,
            final(self).field == old(self).field,
            final(self).selected == old(self).selected,
    {
        self.view = self.view.translated(pan.0, pan.1);
    }

    /// Rescales the view by `factor` (fixed-point) around the screen point
    /// `at`, which maps to the same grid position before and after. No
    /// clamping happens here: callers keep the cumulative scale inside
    /// `[MIN_ZOOM, MAX_ZOOM]`.
    pub fn scale(&mut self, factor: i64, at: (i64, i64))
        requires
            old(self).wf(),
            0 < factor <= FACTOR_LIMIT,
            -COORD_LIMIT <= at.0 <= COORD_LIMIT,
            -COORD_LIMIT <= at.1 <= COORD_LIMIT,
            -DIVIDEND_LIMIT <= factor * (old(self).view.tx - at.0) <= DIVIDEND_LIMIT,
            -DIVIDEND_LIMIT <= factor * (old(self).view.ty - at.1) <= DIVIDEND_LIMIT,
            0 < factor * old(self).view.sx / (FP_ONE as int) <= MAX_ZOOM,
            0 < factor * old(self).view.sy / (FP_ONE as int) <= MAX_ZOOM,
            -TRANS_LIMIT <= at.0 + factor * (old(self).view.tx - at.0) / (FP_ONE as int)
                <= TRANS_LIMIT,
            -TRANS_LIMIT <= at.1 + factor * (old(self).view.ty - at.1) / (FP_ONE as int)
                <= TRANS_LIMIT,
        ensures
            final(self).wf(),
            final(self).view.sx == factor * old(self).view.sx / (FP_ONE as int),
            final(self).view.sy == factor * old(self).view.sy / (FP_ONE as int),
            final(self).view.tx == at.0 + factor * (old(self).view.tx - at.0) / (FP_ONE as int),
            final(self).view.ty == at.1 + factor * (old(self).view.ty - at.1) / (FP_ONE as int),
            final(self).field == old(self).field,
            final(self).selected == old(self).selected,
    {
        self.view = self.view.scaled_at(factor, at.0, at.1);
    }

    /// Gets the scale value: the magnitude of the transform's linear part
    /// per axis, in fixed-point pixels per grid unit.
    pub fn get_scale(&self) -> (r: (i64, i64))
        requires
            self.wf(),
        ensures
            r.0 == self.view.sx,
            r.1 == self.view.sy,
    {
        (self.view.sx, self.view.sy)
    }

    /// The signed grid cell address under a screen position: the inverse
    /// transform applied to the point, floored per axis. The result may lie
    /// outside the board; that is the trigger for board growth.
    pub fn screen_to_grid(&self, pos: (i64, i64)) -> (r: (i64, i64))
        requires
            self.wf(),
            -COORD_LIMIT <= pos.0 <= COORD_LIMIT,
            -COORD_LIMIT <= pos.1 <= COORD_LIMIT,
        ensures
            r.0 == self.view.grid_x(pos.0 as int),
            r.1 == self.view.grid_y(pos.1 as int),
    {
        self.view.grid_of_screen(pos.0, pos.1)
    }

    /// Replaces the board with a resized copy and prepends the paired
    /// translation of `-offset` grid units to the transform, so that every
    /// surviving cell keeps its on-screen position.
    pub fn resize_field(&mut self, size: (i64, i64), offset: (i64, i64))
        requires
            old(self).wf(),
            0 <= size.0 < DIM_MAX,
            0 <= size.1 < DIM_MAX,
            -FACTOR_LIMIT <= offset.0 <= FACTOR_LIMIT,
            -FACTOR_LIMIT <= offset.1 <= FACTOR_LIMIT,
            -TRANS_LIMIT <= old(self).view.tx - old(self).view.sx * offset.0 <= TRANS_LIMIT,
            -TRANS_LIMIT <= old(self).view.ty - old(self).view.sy * offset.1 <= TRANS_LIMIT,
        ensures
            final(self).wf(),
            final(self).field.is_resize_of(
                old(self).field,
                size.0 as int,
                size.1 as int,
                offset.0 as int,
                offset.1 as int,
            ),
            final(self).view.sx == old(self).view.sx,
            final(self).view.sy == old(self).view.sy,
            final(self).view.tx == old(self).view.tx - old(self).view.sx * offset.0,
            final(self).view.ty == old(self).view.ty - old(self).view.sy * offset.1,
            final(self).selected == old(self).selected,
    {
        let new_field = self.field.resize_to(size, offset);
        self.field = new_field;
        proof {
            let s = self.view;
            assert(s.sx * (-offset.0) == -(s.sx * offset.0)) by (nonlinear_arith);
            assert(s.sy * (-offset.1) == -(s.sy * offset.1)) by (nonlinear_arith);
        }
        self.view = self.view.prepended_grid_translation(-offset.0, -offset.1);
    }

    /// Grid column under the screen position.
    pub open spec fn point_gx(&self, pos: (i64, i64)) -> int {
        self.view.grid_x(pos.0 as int)
    }

    /// Grid row under the screen position.
    pub open spec fn point_gy(&self, pos: (i64, i64)) -> int {
        self.view.grid_y(pos.1 as int)
    }

    /// Leftward growth a flex placement at `pos` needs: how far the
    /// addressed column lies below zero.
    pub open spec fn flex_off_x(&self, pos: (i64, i64)) -> int {
        if self.point_gx(pos) < 0 {
            -self.point_gx(pos)
        } else {
            0
        }
    }

    /// Upward growth a flex placement at `pos` needs.
    pub open spec fn flex_off_y(&self, pos: (i64, i64)) -> int {
        if self.point_gy(pos) < 0 {
            -self.point_gy(pos)
        } else {
            0
        }
    }

    /// Rightward growth a flex placement at `pos` needs: how far the
    /// addressed column lies beyond the last one.
    pub open spec fn flex_ext_x(&self, pos: (i64, i64)) -> int {
        if self.point_gx(pos) + 1 > self.field.spec_width() {
            self.point_gx(pos) + 1 - self.field.spec_width()
        } else {
            0
        }
    }

    /// Downward growth a flex placement at `pos` needs.
    pub open spec fn flex_ext_y(&self, pos: (i64, i64)) -> int {
        if self.point_gy(pos) + 1 > self.field.spec_height() {
            self.point_gy(pos) + 1 - self.field.spec_height()
        } else {
            0
        }
    }

    /// Board width after a flex placement at `pos`: unchanged for an
    /// in-bounds address, else extended by exactly the needed amount.
    pub open spec fn flex_w(&self, pos: (i64, i64)) -> int {
        self.field.spec_width() + self.flex_off_x(pos) + self.flex_ext_x(pos)
    }

    /// Board height after a flex placement at `pos`.
    pub open spec fn flex_h(&self, pos: (i64, i64)) -> int {
        self.field.spec_height() + self.flex_off_y(pos) + self.flex_ext_y(pos)
    }

    /// Whether a flex placement at `pos` stays inside the machine limits:
    /// the grown board dimensions below [`DIM_MAX`] and the adjusted
    /// translation inside [`TRANS_LIMIT`]. An in-bounds placement always
    /// fits.
    pub open spec fn spec_flex_fits(&self, pos: (i64, i64)) -> bool {
        &&& self.flex_w(pos) < DIM_MAX
        &&& self.flex_h(pos) < DIM_MAX
        &&& -TRANS_LIMIT <= self.view.tx - self.view.sx * self.flex_off_x(pos) <= TRANS_LIMIT
        &&& -TRANS_LIMIT <= self.view.ty - self.view.sy * self.flex_off_y(pos) <= TRANS_LIMIT
    }

    /// The grid address a flex placement at `pos` lands in, measured in the
    /// board as it stands after the placement's growth.
    pub open spec fn flex_target_x(&self, pos: (i64, i64)) -> int {
        self.point_gx(pos) + self.flex_off_x(pos)
    }

    /// The row of the flex placement target.
    pub open spec fn flex_target_y(&self, pos: (i64, i64)) -> int {
        self.point_gy(pos) + self.flex_off_y(pos)
    }

    /// The grid address under `pos` has a magnitude bounded by the screen
    /// coordinate bounds; all flex arithmetic stays far inside `i64`.
    proof fn lemma_point_bound(&self, pos: (i64, i64))
        requires
            self.wf(),
            -COORD_LIMIT <= pos.0 <= COORD_LIMIT,
            -COORD_LIMIT <= pos.1 <= COORD_LIMIT,
        ensures
            -(COORD_LIMIT + TRANS_LIMIT) <= self.point_gx(pos) <= COORD_LIMIT + TRANS_LIMIT,
            -(COORD_LIMIT + TRANS_LIMIT) <= self.point_gy(pos) <= COORD_LIMIT + TRANS_LIMIT,
    {
        crate::transform::lemma_div_magnitude(pos.0 - self.view.tx, self.view.sx as int);
        crate::transform::lemma_div_magnitude(pos.1 - self.view.ty, self.view.sy as int);
    }

    /// Tests whether a flex placement at `pos` stays inside the machine
    /// limits, so that a caller can check before calling [`Self::flex_mut`].
    pub fn flex_fits(&self, pos: (i64, i64)) -> (r: bool)
        requires
            self.wf(),
            -COORD_LIMIT <= pos.0 <= COORD_LIMIT,
            -COORD_LIMIT <= pos.1 <= COORD_LIMIT,
        ensures
            r == self.spec_flex_fits(pos),
    {
        proof {
            self.lemma_point_bound(pos);
        }
        let (gx, gy) = self.view.grid_of_screen(pos.0, pos.1);
        let w = self.field.width() as i64;
        let h = self.field.height() as i64;
        let ox = if gx < 0 { -gx } else { 0 };
        let oy = if gy < 0 { -gy } else { 0 };
        let ex = if gx + 1 > w { gx + 1 - w } else { 0 };
        let ey = if gy + 1 > h { gy + 1 - h } else { 0 };
        if w + ox + ex >= DIM_MAX || h + oy + ey >= DIM_MAX {
            return false;
        }
        proof {
            assert(0 <= self.view.sx * ox <= MAX_ZOOM * DIM_MAX) by (nonlinear_arith)
                requires
                    0 < self.view.sx <= MAX_ZOOM,
                    0 <= ox < DIM_MAX,
            ;
            assert(0 <= self.view.sy * oy <= MAX_ZOOM * DIM_MAX) by (nonlinear_arith)
                requires
                    0 < self.view.sy <= MAX_ZOOM,
                    0 <= oy < DIM_MAX,
            ;
        }
        let ntx = self.view.tx - self.view.sx * ox;
        let nty = self.view.ty - self.view.sy * oy;
        -TRANS_LIMIT <= ntx && ntx <= TRANS_LIMIT && -TRANS_LIMIT <= nty && nty <= TRANS_LIMIT
    }

    /// Resolves a screen position to an in-bounds cell address, growing the
    /// board (and co-adjusting the transform) when the position falls
    /// outside it. Growth is always the minimal rectangle extension that
    /// brings the addressed cell into range.
    pub fn flex(&mut self, pos: (i64, i64)) -> (r: (usize, usize))
        requires
            old(self).wf(),
            -COORD_LIMIT <= pos.0 <= COORD_LIMIT,
            -COORD_LIMIT <= pos.1 <= COORD_LIMIT,
            old(self).spec_flex_fits(pos),
        ensures
            final(self).wf(),
            final(self).selected == old(self).selected,
            final(self).view.sx == old(self).view.sx,
            final(self).view.sy == old(self).view.sy,
            final(self).view.tx
                == old(self).view.tx - old(self).view.sx * old(self).flex_off_x(pos),
            final(self).view.ty
                == old(self).view.ty - old(self).view.sy * old(self).flex_off_y(pos),
            final(self).field.is_resize_of(
                old(self).field,
                old(self).flex_w(pos),
                old(self).flex_h(pos),
                old(self).flex_off_x(pos),
                old(self).flex_off_y(pos),
            ),
            r.0 == old(self).flex_target_x(pos),
            r.1 == old(self).flex_target_y(pos),
            r.0 < final(self).field.spec_width(),
            r.1 < final(self).field.spec_height(),
    {
        proof {
            self.lemma_point_bound(pos);
        }
        let (gx, gy) = self.view.grid_of_screen(pos.0, pos.1);
        if in_bounds(&self.field, (gx, gy)) {
            (gx as usize, gy as usize)
        } else {
            let w = self.field.width() as i64;
            let h = self.field.height() as i64;
            let ox = if gx < 0 { -gx } else { 0 };
            let oy = if gy < 0 { -gy } else { 0 };
            let ex = if gx + 1 > w { gx + 1 - w } else { 0 };
            let ey = if gy + 1 > h { gy + 1 - h } else { 0 };
            let new_w = w + ox + ex;
            let new_h = h + oy + ey;
            self.resize_field((new_w, new_h), (ox, oy));
            ((gx + ox) as usize, (gy + oy) as usize)
        }
    }

    /// Whether the collapse translation adjustment stays inside the
    /// machine limits.
    pub open spec fn spec_collapse_fits(&self) -> bool {
        &&& -TRANS_LIMIT <= self.view.tx + self.view.sx * self.field.spec_left_bound()
            <= TRANS_LIMIT
        &&& -TRANS_LIMIT <= self.view.ty + self.view.sy * self.field.spec_top_bound()
            <= TRANS_LIMIT
    }

    /// Tests whether a collapse stays inside the machine limits, so that a
    /// caller can check before calling [`Self::collapse`].
    pub fn collapse_fits(&self) -> (r: bool)
        requires
            self.wf(),
        ensures
            r == self.spec_collapse_fits(),
    {
        let (l, _, t, _) = self.field.content_bounds();
        proof {
            self.field.lemma_content_bounds_props();
            assert(0 <= self.view.sx * self.field.spec_left_bound() <= MAX_ZOOM * DIM_MAX)
                by (nonlinear_arith)
                requires
                    0 < self.view.sx <= MAX_ZOOM,
                    0 <= self.field.spec_left_bound() < DIM_MAX,
            ;
            assert(0 <= self.view.sy * self.field.spec_top_bound() <= MAX_ZOOM * DIM_MAX)
                by (nonlinear_arith)
                requires
                    0 < self.view.sy <= MAX_ZOOM,
                    0 <= self.field.spec_top_bound() < DIM_MAX,
            ;
        }
        let ntx = self.view.tx + self.view.sx * (l as i64);
        let nty = self.view.ty + self.view.sy * (t as i64);
        -TRANS_LIMIT <= ntx && ntx <= TRANS_LIMIT && -TRANS_LIMIT <= nty && nty <= TRANS_LIMIT
    }

    /// Collapses the board to the smallest bounding box enclosing its
    /// content, with the paired transform adjustment. A board without
    /// content collapses to a zero-size board.
    pub fn collapse(&mut self)
        requires
            old(self).wf(),
            old(self).spec_collapse_fits(),
        ensures
            final(self).wf(),
            final(self).selected == old(self).selected,
            final(self).view.sx == old(self).view.sx,
            final(self).view.sy == old(self).view.sy,
            final(self).view.tx
                == old(self).view.tx + old(self).view.sx * old(self).field.spec_left_bound(),
            final(self).view.ty
                == old(self).view.ty + old(self).view.sy * old(self).field.spec_top_bound(),
            final(self).field.is_resize_of(
                old(self).field,
                old(self).field.spec_right_bound() - old(self).field.spec_left_bound(),
                old(self).field.spec_bottom_bound() - old(self).field.spec_top_bound(),
                -old(self).field.spec_left_bound(),
                -old(self).field.spec_top_bound(),
            ),
    {
        proof {
            self.field.lemma_content_bounds_props();
        }
        let (l, r, t, b) = self.field.content_bounds();
        proof {
            let s = self.view;
            assert(s.sx * (-(l as int)) == -(s.sx * (l as int))) by (nonlinear_arith);
            assert(s.sy * (-(t as int)) == -(s.sy * (t as int))) by (nonlinear_arith);
        }
        self.resize_field(
            ((r - l) as i64, (b - t) as i64),
            (-(l as i64), -(t as i64)),
        );
    }

    /// Scale of the x axis after a wheel step by `factor`.
    pub open spec fn wheel_sx(&self, factor: i64) -> int {
        factor * self.view.sx / (FP_ONE as int)
    }

    /// Scale of the y axis after a wheel step by `factor`.
    pub open spec fn wheel_sy(&self, factor: i64) -> int {
        factor * self.view.sy / (FP_ONE as int)
    }

    /// Translation of the x axis after a wheel step by `factor` anchored at
    /// `at`.
    pub open spec fn wheel_tx(&self, factor: i64, at: (i64, i64)) -> int {
        at.0 + factor * (self.view.tx - at.0) / (FP_ONE as int)
    }

    /// Translation of the y axis after a wheel step.
    pub open spec fn wheel_ty(&self, factor: i64, at: (i64, i64)) -> int {
        at.1 + factor * (self.view.ty - at.1) / (FP_ONE as int)
    }

    /// Whether a wheel step is accepted: the factor is positive, and in
    /// the direction of travel the step would not drive the scale past the
    /// zoom bound; machine limits on the adjusted translation are obeyed.
    pub open spec fn wheel_allowed(&self, factor: i64, at: (i64, i64)) -> bool {
        &&& 0 < factor <= FACTOR_LIMIT
        &&& factor >= FP_ONE ==> self.wheel_sx(factor) <= MAX_ZOOM
            && self.wheel_sy(factor) <= MAX_ZOOM
        &&& factor < FP_ONE ==> self.wheel_sx(factor) >= MIN_ZOOM
            && self.wheel_sy(factor) >= MIN_ZOOM
        &&& -DIVIDEND_LIMIT <= factor * (self.view.tx - at.0) <= DIVIDEND_LIMIT
        &&& -DIVIDEND_LIMIT <= factor * (self.view.ty - at.1) <= DIVIDEND_LIMIT
        &&& -TRANS_LIMIT <= self.wheel_tx(factor, at) <= TRANS_LIMIT
        &&& -TRANS_LIMIT <= self.wheel_ty(factor, at) <= TRANS_LIMIT
    }

    /// One orchestrated zoom step: checks the scale against the zoom
    /// bounds in the direction of travel and refuses the step if it would
    /// exceed them, else rescales around the anchor. Returns whether the
    /// step was applied.
    pub fn wheel_zoom(&mut self, factor: i64, at: (i64, i64)) -> (applied: bool)
        requires
            old(self).wf(),
            -COORD_LIMIT <= at.0 <= COORD_LIMIT,
            -COORD_LIMIT <= at.1 <= COORD_LIMIT,
        ensures
            final(self).wf(),
            final(self).field == old(self).field,
            final(self).selected == old(self).selected,
            applied == old(self).wheel_allowed(factor, at),
            applied ==> final(self).view.sx == old(self).wheel_sx(factor)
                && final(self).view.sy == old(self).wheel_sy(factor)
                && final(self).view.tx == old(self).wheel_tx(factor, at)
                && final(self).view.ty == old(self).wheel_ty(factor, at),
            !applied ==> final(self).view == old(self).view,
    {
        if factor <= 0 || factor > FACTOR_LIMIT {
            return false;
        }
        proof {
            assert(0 < factor * self.view.sx <= FACTOR_LIMIT * MAX_ZOOM) by (nonlinear_arith)
                requires
                    0 < factor <= FACTOR_LIMIT,
                    0 < self.view.sx <= MAX_ZOOM,
            ;
            assert(0 < factor * self.view.sy <= FACTOR_LIMIT * MAX_ZOOM) by (nonlinear_arith)
                requires
                    0 < factor <= FACTOR_LIMIT,
                    0 < self.view.sy <= MAX_ZOOM,
            ;
        }
        let nsx = crate::transform::floor_div(factor * self.view.sx, FP_ONE);
        let nsy = crate::transform::floor_div(factor * self.view.sy, FP_ONE);
        if factor >= FP_ONE {
            if nsx > MAX_ZOOM || nsy > MAX_ZOOM {
                return false;
            }
        } else {
            if nsx < MIN_ZOOM || nsy < MIN_ZOOM {
                return false;
            }
        }
        proof {
            // In the zoom-in direction the scale cannot shrink, and in the
            // zoom-out direction it cannot grow: the candidate scale is
            // positive and inside the machine bound either way.
            vstd::arithmetic::div_mod::lemma_div_multiples_vanish(
                self.view.sx as int,
                FP_ONE as int,
            );
            vstd::arithmetic::div_mod::lemma_div_multiples_vanish(
                self.view.sy as int,
                FP_ONE as int,
            );
            if factor >= FP_ONE {
                assert((FP_ONE as int) * self.view.sx <= factor * self.view.sx)
                    by (nonlinear_arith)
                    requires
                        FP_ONE <= factor,
                        0 < self.view.sx,
                ;
                assert((FP_ONE as int) * self.view.sy <= factor * self.view.sy)
                    by (nonlinear_arith)
                    requires
                        FP_ONE <= factor,
                        0 < self.view.sy,
                ;
                vstd::arithmetic::div_mod::lemma_div_is_ordered(
                    (FP_ONE as int) * self.view.sx,
                    factor * self.view.sx,
                    FP_ONE as int,
                );
                vstd::arithmetic::div_mod::lemma_div_is_ordered(
                    (FP_ONE as int) * self.view.sy,
                    factor * self.view.sy,
                    FP_ONE as int,
                );
            } else {
                assert(factor * self.view.sx <= (FP_ONE as int) * self.view.sx)
                    by (nonlinear_arith)
                    requires
                        0 < factor <= FP_ONE,
                        0 < self.view.sx,
                ;
                assert(factor * self.view.sy <= (FP_ONE as int) * self.view.sy)
                    by (nonlinear_arith)
                    requires
                        0 < factor <= FP_ONE,
                        0 < self.view.sy,
                ;
                vstd::arithmetic::div_mod::lemma_div_is_ordered(
                    factor * self.view.sx,
                    (FP_ONE as int) * self.view.sx,
                    FP_ONE as int,
                );
                vstd::arithmetic::div_mod::lemma_div_is_ordered(
                    factor * self.view.sy,
                    (FP_ONE as int) * self.view.sy,
                    FP_ONE as int,
                );
            }
        }
        proof {
            let bound = (TRANS_LIMIT + COORD_LIMIT) as int;
            assert(-(FACTOR_LIMIT * bound) <= factor * (self.view.tx - at.0)
                <= FACTOR_LIMIT * bound) by (nonlinear_arith)
                requires
                    0 < factor <= FACTOR_LIMIT,
                    -bound <= self.view.tx - at.0 <= bound,
            ;
            assert(-(FACTOR_LIMIT * bound) <= factor * (self.view.ty - at.1)
                <= FACTOR_LIMIT * bound) by (nonlinear_arith)
                requires
                    0 < factor <= FACTOR_LIMIT,
                    -bound <= self.view.ty - at.1 <= bound,
            ;
        }
        let dx = (factor as i128) * ((self.view.tx - at.0) as i128);
        if dx < -(DIVIDEND_LIMIT as i128) || dx > DIVIDEND_LIMIT as i128 {
            return false;
        }
        let dy = (factor as i128) * ((self.view.ty - at.1) as i128);
        if dy < -(DIVIDEND_LIMIT as i128) || dy > DIVIDEND_LIMIT as i128 {
            return false;
        }
        let qx = crate::transform::floor_div(factor * (self.view.tx - at.0), FP_ONE);
        let qy = crate::transform::floor_div(factor * (self.view.ty - at.1), FP_ONE);
        proof {
            crate::transform::lemma_div_magnitude(
                factor * (self.view.tx - at.0),
                FP_ONE as int,
            );
            crate::transform::lemma_div_magnitude(
                factor * (self.view.ty - at.1),
                FP_ONE as int,
            );
        }
        let ntx = at.0 + qx;
        if ntx < -TRANS_LIMIT || ntx > TRANS_LIMIT {
            return false;
        }
        let nty = at.1 + qy;
        if nty < -TRANS_LIMIT || nty > TRANS_LIMIT {
            return false;
        }
        self.view = self.view.scaled_at(factor, at.0, at.1);
        true
    }

    /// Applies a pointer-move event: pans the view by the pointer delta
    /// while the secondary button is held.
    pub fn apply_mouse_move(&mut self, buttons: MouseButtons, pos: (i64, i64), last: (i64, i64))
        requires
            old(self).wf(),
            -COORD_LIMIT <= pos.0 - last.0 <= COORD_LIMIT,
            -COORD_LIMIT <= pos.1 - last.1 <= COORD_LIMIT,
            buttons.spec_right() ==> -TRANS_LIMIT <= old(self).view.tx + (pos.0 - last.0)
                <= TRANS_LIMIT,
            buttons.spec_right() ==> -TRANS_LIMIT <= old(self).view.ty + (pos.1 - last.1)
                <= TRANS_LIMIT,
        ensures
            final(self).wf(),
            final(self).field == old(self).field,
            final(self).selected == old(self).selected,
            buttons.spec_right() ==> final(self).view.sx == old(self).view.sx
                && final(self).view.sy == old(self).view.sy
                && final(self).view.tx == old(self).view.tx + (pos.0 - last.0)
                && final(self).view.ty == old(self).view.ty + (pos.1 - last.1),
            !buttons.spec_right() ==> final(self).view == old(self).view,
    {
        if buttons.right() {
            self.pan((pos.0 - last.0, pos.1 - last.1));
        }
    }

    /// Applies a pointer-up event: with the primary button, places the
    /// selected panel under the pointer (or deletes the panel there when
    /// shift is held), growing the board as needed, then collapses the
    /// board to its minimal content box. Returns, as ghost state, the
    /// intermediate view after the placement and before the collapse.
    pub fn apply_mouse_up(
        &mut self,
        button: MouseButtons,
        modifiers: MouseModifiers,
        pos: (i64, i64),
    ) -> (edited: Ghost<EditorView>)
        requires
            old(self).wf(),
            -COORD_LIMIT <= pos.0 <= COORD_LIMIT,
            -COORD_LIMIT <= pos.1 <= COORD_LIMIT,
            button.spec_left() ==> old(self).spec_flex_fits(pos),
            button.spec_left() ==> -COLLAPSE_ROOM
                <= old(self).view.tx - old(self).view.sx * old(self).flex_off_x(pos)
                <= COLLAPSE_ROOM,
            button.spec_left() ==> -COLLAPSE_ROOM
                <= old(self).view.ty - old(self).view.sy * old(self).flex_off_y(pos)
                <= COLLAPSE_ROOM,
        ensures
            final(self).wf(),
            !button.spec_left() ==> *final(self) == *old(self) && edited@ == *old(self),
            button.spec_left() ==> {
                let placed = if modifiers.spec_shift() {
                    PanelKind::Empty
                } else {
                    old(self).selected
                };
                &&& edited@.wf()
                &&& edited@.selected == old(self).selected
                &&& edited@.view.sx == old(self).view.sx
                &&& edited@.view.sy == old(self).view.sy
                &&& edited@.view.tx
                    == old(self).view.tx - old(self).view.sx * old(self).flex_off_x(pos)
                &&& edited@.view.ty
                    == old(self).view.ty - old(self).view.sy * old(self).flex_off_y(pos)
                &&& edited@.field.spec_width() == old(self).flex_w(pos)
                &&& edited@.field.spec_height() == old(self).flex_h(pos)
                &&& forall|i: int, j: int|
                    0 <= i < old(self).flex_w(pos) && 0 <= j < old(self).flex_h(pos) ==>
                    #[trigger] edited@.field.cell(i, j) == (if i == old(self).flex_target_x(pos)
                        && j == old(self).flex_target_y(pos) {
                        Panel { kind: placed }
                    } else if old(self).field.spec_in_bounds(
                        i - old(self).flex_off_x(pos),
                        j - old(self).flex_off_y(pos),
                    ) {
                        old(self).field.cell(
                            i - old(self).flex_off_x(pos),
                            j - old(self).flex_off_y(pos),
                        )
                    } else {
                        Panel::empty_spec()
                    })
                &&& final(self).selected == edited@.selected
                &&& final(self).view.sx == edited@.view.sx
                &&& final(self).view.sy == edited@.view.sy
                &&& final(self).view.tx
                    == edited@.view.tx + edited@.view.sx * edited@.field.spec_left_bound()
                &&& final(self).view.ty
                    == edited@.view.ty + edited@.view.sy * edited@.field.spec_top_bound()
                &&& final(self).field.is_resize_of(
                    edited@.field,
                    edited@.field.spec_right_bound() - edited@.field.spec_left_bound(),
                    edited@.field.spec_bottom_bound() - edited@.field.spec_top_bound(),
                    -edited@.field.spec_left_bound(),
                    -edited@.field.spec_top_bound(),
                )
            },
    {
        if !button.left() {
            let ghost g = *self;
            return Ghost(g);
        }
        let kind = if modifiers.shift() { PanelKind::Empty } else { self.selected };
        let p = self.flex_mut(pos);
        *p = Panel { kind };
        let ghost edited = *self;
        proof {
            self.field.lemma_content_bounds_props();
            assert(0 <= self.view.sx * self.field.spec_left_bound() <= MAX_ZOOM * DIM_MAX)
                by (nonlinear_arith)
                requires
                    0 < self.view.sx <= MAX_ZOOM,
                    0 <= self.field.spec_left_bound() < DIM_MAX,
            ;
            assert(0 <= self.view.sy * self.field.spec_top_bound() <= MAX_ZOOM * DIM_MAX)
                by (nonlinear_arith)
                requires
                    0 < self.view.sy <= MAX_ZOOM,
                    0 <= self.field.spec_top_bound() < DIM_MAX,
            ;
        }
        self.collapse();
        Ghost(edited)
    }

    /// Translates and scales the view so that the whole board rests inside
    /// a bounding box of `bb` fixed-point screen pixels, with a fixed
    /// margin, centered. A no-op on a board with a zero dimension.
    pub fn center(&mut self, bb: (i64, i64))
        requires
            old(self).wf(),
            -TRANS_LIMIT <= bb.0 <= TRANS_LIMIT,
            -TRANS_LIMIT <= bb.1 <= TRANS_LIMIT,
        ensures
            final(self).wf(),
            final(self).field == old(self).field,
            final(self).selected == old(self).selected,
            old(self).field.spec_width() == 0 || old(self).field.spec_height() == 0 ==>
                final(self).view == old(self).view,
            old(self).field.spec_width() > 0 && old(self).field.spec_height() > 0 ==> {
                let s = old(self).center_scale(bb);
                &&& final(self).view.sx == s
                &&& final(self).view.sy == s
                &&& final(self).view.tx == (bb.0 - old(self).field.spec_width() * s) / 2
                &&& final(self).view.ty == (bb.1 - old(self).field.spec_height() * s) / 2
            },
    {
        let w = self.field.width();
        let h = self.field.height();
        if w > 0 && h > 0 {
            let rx = crate::transform::floor_div(bb.0 - CENTER_MARGIN, w as i64);
            let ry = crate::transform::floor_div(bb.1 - CENTER_MARGIN, h as i64);
            let s0 = if rx < ry { rx } else { ry };
            let s = if s0 < MIN_ZOOM {
                MIN_ZOOM
            } else if s0 > MAX_ZOOM {
                MAX_ZOOM
            } else {
                s0
            };
            proof {
                assert(0 < (w as int) * s <= DIM_MAX * MAX_ZOOM) by (nonlinear_arith)
                    requires
                        0 < w < DIM_MAX,
                        0 < s <= MAX_ZOOM,
                ;
                assert(0 < (h as int) * s <= DIM_MAX * MAX_ZOOM) by (nonlinear_arith)
                    requires
                        0 < h < DIM_MAX,
                        0 < s <= MAX_ZOOM,
                ;
            }
            let fbx = (w as i64) * s;
            let fby = (h as i64) * s;
            let tx = crate::transform::floor_div(bb.0 - fbx, 2);
            let ty = crate::transform::floor_div(bb.1 - fby, 2);
            proof {
                crate::transform::lemma_div_magnitude(bb.0 - fbx, 2);
                crate::transform::lemma_div_magnitude(bb.1 - fby, 2);
            }
            self.view = Transform { sx: s, sy: s, tx, ty };
        }
    }

    /// The scale the centering operation chooses for a board with positive
    /// dimensions: the larger scale that still fits both axes inside the
    /// box minus the margin, clamped to the zoom bounds.
    pub open spec fn center_scale(&self, bb: (i64, i64)) -> int {
        let rx = (bb.0 - CENTER_MARGIN) / self.field.spec_width();
        let ry = (bb.1 - CENTER_MARGIN) / self.field.spec_height();
        let s0 = if rx < ry { rx } else { ry };
        if s0 < MIN_ZOOM {
            MIN_ZOOM as int
        } else if s0 > MAX_ZOOM {
            MAX_ZOOM as int
        } else {
            s0
        }
    }

    /// Gets a mutable panel reference using a screen position, growing the
    /// board if needed.
    pub fn flex_mut(&mut self, pos: (i64, i64)) -> (r: &mut Panel)
        requires
            old(self).wf(),
            -COORD_LIMIT <= pos.0 <= COORD_LIMIT,
            -COORD_LIMIT <= pos.1 <= COORD_LIMIT,
            old(self).spec_flex_fits(pos),
        ensures
            *r == (if old(self).field.spec_in_bounds(
                old(self).point_gx(pos),
                old(self).point_gy(pos),
            ) {
                old(self).field.cell(old(self).point_gx(pos), old(self).point_gy(pos))
            } else {
                Panel::empty_spec()
            }),
            final(self).wf(),
            final(self).selected == old(self).selected,
            final(self).view.sx == old(self).view.sx,
            final(self).view.sy == old(self).view.sy,
            final(self).view.tx
                == old(self).view.tx - old(self).view.sx * old(self).flex_off_x(pos),
            final(self).view.ty
                == old(self).view.ty - old(self).view.sy * old(self).flex_off_y(pos),
            final(self).field.spec_width() == old(self).flex_w(pos),
            final(self).field.spec_height() == old(self).flex_h(pos),
            forall|i: int, j: int|
                0 <= i < old(self).flex_w(pos) && 0 <= j < old(self).flex_h(pos) ==>
                #[trigger] final(self).field.cell(i, j)
                    == (if i == old(self).flex_target_x(pos) && j == old(self).flex_target_y(pos) {
                        *final(r)
                    } else if old(self).field.spec_in_bounds(
                        i - old(self).flex_off_x(pos),
                        j - old(self).flex_off_y(pos),
                    ) {
                        old(self).field.cell(
                            i - old(self).flex_off_x(pos),
                            j - old(self).flex_off_y(pos),
                        )
                    } else {
                        Panel::empty_spec()
                    }),
    {
        let (x, y) = self.flex(pos);
        self.field.get_mut(x, y)
    }
}

/// Whether a board of `w2` columns, holding the old `old_w` columns shifted
/// right by `o2`, also contains the addressed column `g`. The analogue
/// holds for rows.
pub open spec fn axis_covers(old_w: int, w2: int, o2: int, g: int) -> bool {
    &&& o2 >= 0
    &&& w2 >= old_w + o2
    &&& 0 <= g + o2 < w2
}

/// The panel kind of the example seed layout at `(x, y)`: a ring of typed
/// panels around an empty interior.
pub open spec fn example_kind(x: int, y: int) -> PanelKind {
    if y == 0 {
        if x == 0 { PanelKind::Home }
        else if x == 1 { PanelKind::Bonus }
        else if x == 2 { PanelKind::Draw }
        else if x == 3 { PanelKind::Encounter }
        else if x == 4 { PanelKind::Drop }
        else { PanelKind::Home }
    } else if y == 5 {
        if x == 0 { PanelKind::Home }
        else if x == 1 { PanelKind::Drop }
        else if x == 2 { PanelKind::Encounter }
        else if x == 3 { PanelKind::Draw }
        else if x == 4 { PanelKind::Bonus }
        else { PanelKind::Home }
    } else if x == 0 {
        if y == 1 { PanelKind::Drop }
        else if y == 2 { PanelKind::Encounter }
        else if y == 3 { PanelKind::Draw }
        else { PanelKind::Bonus }
    } else if x == 5 {
        if y == 1 { PanelKind::Bonus }
        else if y == 2 { PanelKind::Draw }
        else if y == 3 { PanelKind::Encounter }
        else { PanelKind::Drop }
    } else {
        PanelKind::Empty
    }
}

/// Growth through a flex placement is the minimal rectangle extension that
/// brings the addressed cell into range: the grown board contains the cell,
/// and any board that keeps the old cells (shifted by a non-negative
/// offset) and contains the cell is at least as large on each axis.
pub proof fn lemma_growth_minimality(v: EditorView, pos: (i64, i64))
    requires
        v.wf(),
    ensures
        0 <= v.flex_target_x(pos) < v.flex_w(pos),
        0 <= v.flex_target_y(pos) < v.flex_h(pos),
        forall|w2: int, o2: int|
            #[trigger] axis_covers(v.field.spec_width(), w2, o2, v.point_gx(pos))
                ==> w2 >= v.flex_w(pos),
        forall|h2: int, o2: int|
            #[trigger] axis_covers(v.field.spec_height(), h2, o2, v.point_gy(pos))
                ==> h2 >= v.flex_h(pos),
{
}

/// Re-resolving the same screen position right after a flex placement
/// lands in bounds and asks for no further growth: the transform pairing
/// shifts the addressed cell exactly as the board contents were shifted.
pub proof fn lemma_flex_idempotent(v0: EditorView, v1: EditorView, pos: (i64, i64))
    requires
        v0.wf(),
        v1.wf(),
        v1.view.sx == v0.view.sx,
        v1.view.sy == v0.view.sy,
        v1.view.tx == v0.view.tx - v0.view.sx * v0.flex_off_x(pos),
        v1.view.ty == v0.view.ty - v0.view.sy * v0.flex_off_y(pos),
        v1.field.spec_width() == v0.flex_w(pos),
        v1.field.spec_height() == v0.flex_h(pos),
    ensures
        v1.point_gx(pos) == v0.flex_target_x(pos),
        v1.point_gy(pos) == v0.flex_target_y(pos),
        v1.field.spec_in_bounds(v1.point_gx(pos), v1.point_gy(pos)),
        v1.flex_off_x(pos) == 0,
        v1.flex_off_y(pos) == 0,
        v1.flex_ext_x(pos) == 0,
        v1.flex_ext_y(pos) == 0,
        v1.flex_w(pos) == v1.field.spec_width(),
        v1.flex_h(pos) == v1.field.spec_height(),
{
    let ox = v0.flex_off_x(pos);
    let oy = v0.flex_off_y(pos);
    assert((pos.0 - v1.view.tx) == (pos.0 - v0.view.tx) + ox * v0.view.sx) by (nonlinear_arith)
        requires
            v1.view.tx == v0.view.tx - v0.view.sx * ox,
    ;
    assert((pos.1 - v1.view.ty) == (pos.1 - v0.view.ty) + oy * v0.view.sy) by (nonlinear_arith)
        requires
            v1.view.ty == v0.view.ty - v0.view.sy * oy,
    ;
    vstd::arithmetic::div_mod::lemma_hoist_over_denominator(
        pos.0 - v0.view.tx,
        ox,
        v0.view.sx as nat,
    );
    vstd::arithmetic::div_mod::lemma_hoist_over_denominator(
        pos.1 - v0.view.ty,
        oy,
        v0.view.sy as nat,
    );
}

/// The paired transform adjustment of a resize keeps every surviving cell
/// at its exact screen position: the new transform applied to the cell's
/// new address gives the same point as the old transform applied to its
/// old address, and the cell's content survives unchanged.
pub proof fn lemma_resize_visual_stability(
    v0: EditorView,
    v1: EditorView,
    nw: int,
    nh: int,
    dx: int,
    dy: int,
    x: int,
    y: int,
)
    requires
        v1.view.sx == v0.view.sx,
        v1.view.sy == v0.view.sy,
        v1.view.tx == v0.view.tx - v0.view.sx * dx,
        v1.view.ty == v0.view.ty - v0.view.sy * dy,
        v1.field.is_resize_of(v0.field, nw, nh, dx, dy),
        v0.field.spec_in_bounds(x, y),
        v1.field.spec_in_bounds(x + dx, y + dy),
    ensures
        v1.view.apply_x(x + dx) == v0.view.apply_x(x),
        v1.view.apply_y(y + dy) == v0.view.apply_y(y),
        v1.field.cell(x + dx, y + dy) == v0.field.cell(x, y),
{
    assert(v0.view.sx * (x + dx) + (v0.view.tx - v0.view.sx * dx)
        == v0.view.sx * x + v0.view.tx) by (nonlinear_arith);
    assert(v0.view.sy * (y + dy) + (v0.view.ty - v0.view.sy * dy)
        == v0.view.sy * y + v0.view.ty) by (nonlinear_arith);
    assert(v1.field.cell(x + dx, y + dy) == v0.field.cell(x, y));
}

/// Once the orchestrated wheel step is the only scaling applied, the scale
/// never leaves `[MIN_ZOOM, MAX_ZOOM]`: a step that would cross a bound in
/// its direction of travel is refused, and an accepted step cannot cross
/// the opposite bound.
pub proof fn lemma_scale_clamp(v0: EditorView, v1: EditorView, factor: i64, at: (i64, i64))
    requires
        v0.wf(),
        MIN_ZOOM <= v0.view.sx <= MAX_ZOOM,
        MIN_ZOOM <= v0.view.sy <= MAX_ZOOM,
        // v1 is the outcome of one wheel step on v0:
        v0.wheel_allowed(factor, at) ==> v1.view.sx == v0.wheel_sx(factor)
            && v1.view.sy == v0.wheel_sy(factor),
        !v0.wheel_allowed(factor, at) ==> v1.view == v0.view,
    ensures
        MIN_ZOOM <= v1.view.sx <= MAX_ZOOM,
        MIN_ZOOM <= v1.view.sy <= MAX_ZOOM,
{
    if v0.wheel_allowed(factor, at) {
        vstd::arithmetic::div_mod::lemma_div_multiples_vanish(
            v0.view.sx as int,
            FP_ONE as int,
        );
        vstd::arithmetic::div_mod::lemma_div_multiples_vanish(
            v0.view.sy as int,
            FP_ONE as int,
        );
        if factor >= FP_ONE {
            assert((FP_ONE as int) * v0.view.sx <= factor * v0.view.sx) by (nonlinear_arith)
                requires
                    FP_ONE <= factor,
                    0 < v0.view.sx,
            ;
            assert((FP_ONE as int) * v0.view.sy <= factor * v0.view.sy) by (nonlinear_arith)
                requires
                    FP_ONE <= factor,
                    0 < v0.view.sy,
            ;
            vstd::arithmetic::div_mod::lemma_div_is_ordered(
                (FP_ONE as int) * v0.view.sx,
                factor * v0.view.sx,
                FP_ONE as int,
            );
            vstd::arithmetic::div_mod::lemma_div_is_ordered(
                (FP_ONE as int) * v0.view.sy,
                factor * v0.view.sy,
                FP_ONE as int,
            );
        } else {
            assert(factor * v0.view.sx <= (FP_ONE as int) * v0.view.sx) by (nonlinear_arith)
                requires
                    0 < factor <= FP_ONE,
                    0 < v0.view.sx,
            ;
            assert(factor * v0.view.sy <= (FP_ONE as int) * v0.view.sy) by (nonlinear_arith)
                requires
                    0 < factor <= FP_ONE,
                    0 < v0.view.sy,
            ;
            vstd::arithmetic::div_mod::lemma_div_is_ordered(
                factor * v0.view.sx,
                (FP_ONE as int) * v0.view.sx,
                FP_ONE as int,
            );
            vstd::arithmetic::div_mod::lemma_div_is_ordered(
                factor * v0.view.sy,
                (FP_ONE as int) * v0.view.sy,
                FP_ONE as int,
            );
        }
    }
}

impl PartialEq for EditorView {
    /// Editor states are equal when the board, the selected kind and the
    /// transform all match: a host may skip re-rendering when no effective
    /// change occurred.
    fn eq(&self, other: &EditorView) -> (r: bool) {
        self.field == other.field && self.selected == other.selected && self.view == other.view
    }
}

impl vstd::std_specs::cmp::PartialEqSpecImpl for EditorView {
    open spec fn obeys_eq_spec() -> bool {
        true
    }

    open spec fn eq_spec(&self, other: &EditorView) -> bool {
        &&& self.field.same_repr(&other.field)
        &&& self.selected == other.selected
        &&& self.view == other.view
    }
}

impl Default for EditorView {
    /// An empty board under the identity transform.
    fn default() -> (r: EditorView)
        ensures
            r.wf(),
            r.view.sx == FP_ONE,
            r.view.sy == FP_ONE,
            r.view.tx == 0,
            r.view.ty == 0,
            r.field.spec_width() == 0,
            r.field.spec_height() == 0,
            r.selected == DEFAULT_PANEL,
    {
        EditorView {
            field: Field::new(),
            selected: DEFAULT_PANEL,
            view: Transform::identity(),
        }
    }
}

} // verus!
