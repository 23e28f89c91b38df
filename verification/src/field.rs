//! The rectangular board of panels: a contiguous row-major buffer of cells
//! together with its dimensions, and the single resize primitive through
//! which both growth and shrink funnel.

use vstd::prelude::*;
use crate::panel::Panel;

verus! {

/// Exclusive upper bound on a board dimension, so that index arithmetic on
/// the row-major buffer stays well inside the machine word even on 32-bit
/// targets.
pub const DIM_MAX: i64 = 0x8000;

/// Exclusive upper bound on the magnitude of a resize offset component.
pub const OFFSET_MAX: i64 = 0x4000_0000_0000_0000;

/// Reads the row-major buffer `s` of row length `w` at column `x` of row
/// `y`. A named accessor so that quantifiers over grid contents have a
/// stable trigger.
pub open spec fn flat_at(s: Seq<Panel>, w: int, x: int, y: int) -> Panel {
    s[y * w + x]
}

/// Row-major flat indices of distinct in-range positions are distinct.
proof fn lemma_flat_index_injective(w: int, x1: int, y1: int, x2: int, y2: int)
    requires
        0 <= x1 < w,
        0 <= x2 < w,
        0 <= y1,
        0 <= y2,
        y1 * w + x1 == y2 * w + x2,
    ensures
        x1 == x2,
        y1 == y2,
{
    assert(x1 == x2 && y1 == y2) by (nonlinear_arith)
        requires
            0 <= x1 < w,
            0 <= x2 < w,
            0 <= y1,
            0 <= y2,
            y1 * w + x1 == y2 * w + x2,
    ;
}

/// Every in-range position has its flat index inside the buffer.
pub proof fn lemma_flat_index_bound(w: int, h: int, x: int, y: int)
    requires
        0 <= x < w,
        0 <= y < h,
    ensures
        0 <= y * w + x < h * w,
{
    assert(0 <= y * w + x < h * w) by (nonlinear_arith)
        requires
            0 <= x < w,
            0 <= y < h,
    ;
}

/// Updating one in-range position of a row-major buffer changes the cell
/// there and no other.
proof fn lemma_flat_update_all(s: Seq<Panel>, w: int, h: int, x: int, y: int)
    requires
        0 <= x < w,
        0 <= y < h,
        s.len() == h * w,
    ensures
        forall|p: Panel, i: int, j: int| 0 <= i < w && 0 <= j < h ==>
            #[trigger] flat_at(s.update(y * w + x, p), w, i, j)
                == (if i == x && j == y { p } else { flat_at(s, w, i, j) }),
{
    lemma_flat_index_bound(w, h, x, y);
    assert forall|p: Panel, i: int, j: int|
        0 <= i < w && 0 <= j < h implies
        #[trigger] flat_at(s.update(y * w + x, p), w, i, j)
            == (if i == x && j == y { p } else { flat_at(s, w, i, j) }) by {
        lemma_flat_index_bound(w, h, i, j);
        if !(i == x && j == y) && j * w + i == y * w + x {
            lemma_flat_index_injective(w, i, j, x, y);
        }
    }
}

/// The board being edited: a row-major buffer of `width * height` panels.
/// It is immutable-by-replacement: single cells may be written in place,
/// but every resize builds a new buffer through [`Field::resize_to`].
#[derive(Clone, Debug)]
pub struct Field {
    cells: Vec<Panel>,
    width: usize,
    height: usize,
}

impl Field {
    /// The buffer invariant: its length is exactly `width * height`.
    pub closed spec fn buffer_sized(&self) -> bool {
        self.cells@.len() == self.width * self.height
    }

    /// The board's well-formedness: the buffer length is exactly
    /// `width * height`, and both dimensions stay below [`DIM_MAX`].
    pub open spec fn wf(&self) -> bool {
        &&& self.buffer_sized()
        &&& 0 <= self.spec_width() < DIM_MAX
        &&& 0 <= self.spec_height() < DIM_MAX
    }

    /// Board width, in cells.
    pub closed spec fn spec_width(&self) -> int {
        self.width as int
    }

    /// Board height, in cells.
    pub closed spec fn spec_height(&self) -> int {
        self.height as int
    }

    /// The panel at column `x` of row `y`.
    pub closed spec fn cell(&self, x: int, y: int) -> Panel {
        flat_at(self.cells@, self.spec_width(), x, y)
    }

    /// Whether a signed cell address lies inside the board.
    pub open spec fn spec_in_bounds(&self, x: int, y: int) -> bool {
        0 <= x < self.spec_width() && 0 <= y < self.spec_height()
    }

    /// What it means for `self` to be `from` resized to `size` with cells
    /// shifted by `offset`: new cell `(x, y)` equals old cell
    /// `(x - offset.0, y - offset.1)` where that address was in the old
    /// bounds, and the empty panel everywhere else.
    pub open spec fn is_resize_of(self, from: Field, new_w: int, new_h: int, dx: int, dy: int) -> bool {
        &&& self.spec_width() == new_w
        &&& self.spec_height() == new_h
        &&& forall|x: int, y: int| 0 <= x < new_w && 0 <= y < new_h ==>
            #[trigger] self.cell(x, y) == (if from.spec_in_bounds(x - dx, y - dy) {
                from.cell(x - dx, y - dy)
            } else {
                Panel::empty_spec()
            })
    }

    /// A new, zero-sized board.
    pub fn new() -> (r: Field)
        ensures
            r.wf(),
            r.spec_width() == 0,
            r.spec_height() == 0,
    {
        Field { cells: Vec::new(), width: 0, height: 0 }
    }

    /// A board of the given dimensions holding `p` in every cell.
    pub fn new_filled(w: usize, h: usize, p: Panel) -> (r: Field)
        requires
            w < DIM_MAX,
            h < DIM_MAX,
        ensures
            r.wf(),
            r.spec_width() == w,
            r.spec_height() == h,
            forall|x: int, y: int| r.spec_in_bounds(x, y) ==> #[trigger] r.cell(x, y) == p,
    {
        proof {
            assert(0 <= (w as int) * (h as int) < DIM_MAX * DIM_MAX) by (nonlinear_arith)
                requires
                    0 <= w < DIM_MAX,
                    0 <= h < DIM_MAX,
            ;
        }
        let n = w * h;
        let mut cells: Vec<Panel> = Vec::new();
        let mut i: usize = 0;
        while i < n
            invariant
                i <= n,
                cells@.len() == i,
                forall|k: int| 0 <= k < i ==> cells@[k] == p,
            decreases n - i,
        {
            cells.push(p);
            i += 1;
        }
        let r = Field { cells, width: w, height: h };
        proof {
            assert(r.cells@.len() == r.width * r.height);
            assert forall|x: int, y: int| r.spec_in_bounds(x, y) implies
                #[trigger] r.cell(x, y) == p by {
                lemma_flat_index_bound(w as int, h as int, x, y);
                assert((h as int) * (w as int) == (w as int) * (h as int)) by (nonlinear_arith);
            }
        }
        r
    }

    /// A board seeded from a rectangular row-major literal layout. All rows
    /// must have the same length.
    pub fn new_slice(rows: &Vec<Vec<Panel>>) -> (r: Field)
        requires
            rows@.len() < DIM_MAX,
            forall|y: int| 0 <= y < rows@.len() ==> #[trigger] rows@[y]@.len() == rows@[0]@.len(),
            rows@.len() > 0 ==> rows@[0]@.len() < DIM_MAX,
        ensures
            r.wf(),
            r.spec_height() == rows@.len(),
            r.spec_width() == (if rows@.len() == 0 { 0int } else { rows@[0]@.len() as int }),
            forall|x: int, y: int| 0 <= y < rows@.len() && 0 <= x < rows@[y]@.len() ==>
                #[trigger] r.cell(x, y) == rows@[y]@[x],
    {
        let height = rows.len();
        let width = if height == 0 { 0 } else { rows[0].len() };
        let mut cells: Vec<Panel> = Vec::new();
        let mut y: usize = 0;
        while y < height
            invariant
                height == rows@.len() < DIM_MAX,
                width < DIM_MAX,
                y <= height,
                forall|j: int| 0 <= j < height ==> #[trigger] rows@[j]@.len() == width,
                cells@.len() == y * width,
                forall|xx: int, yy: int| 0 <= yy < y && 0 <= xx < width ==>
                    #[trigger] flat_at(cells@, width as int, xx, yy) == rows@[yy]@[xx],
            decreases height - y,
        {
            let row = &rows[y];
            let mut x: usize = 0;
            while x < width
                invariant
                    height == rows@.len() < DIM_MAX,
                    width < DIM_MAX,
                    y < height,
                    x <= width,
                    forall|j: int| 0 <= j < height ==> #[trigger] rows@[j]@.len() == width,
                    row == rows@[y as int],
                    cells@.len() == y * width + x,
                    forall|xx: int, yy: int| 0 <= yy < y && 0 <= xx < width ==>
                        #[trigger] flat_at(cells@, width as int, xx, yy) == rows@[yy]@[xx],
                    forall|xx: int| 0 <= xx < x ==>
                        #[trigger] flat_at(cells@, width as int, xx, y as int) == rows@[y as int]@[xx],
                decreases width - x,
            {
                let ghost pre = cells@;
                cells.push(row[x]);
                proof {
                    assert forall|xx: int, yy: int|
                        0 <= yy < y && 0 <= xx < width implies
                        #[trigger] flat_at(cells@, width as int, xx, yy) == rows@[yy]@[xx] by {
                        lemma_flat_index_bound(width as int, y as int, xx, yy);
                        assert(flat_at(pre, width as int, xx, yy) == rows@[yy]@[xx]);
                    }
                    assert forall|xx: int| 0 <= xx <= x implies
                        #[trigger] flat_at(cells@, width as int, xx, y as int) == rows@[y as int]@[xx] by {
                        if xx < x {
                            lemma_flat_index_bound(width as int, y as int + 1, xx, y as int);
                            assert(flat_at(pre, width as int, xx, y as int) == rows@[y as int]@[xx]);
                        }
                    }
                }
                x += 1;
            }
            proof {
                assert((y + 1) * width == y * width + width) by (nonlinear_arith);
            }
            y += 1;
        }
        let r = Field { cells, width, height };
        proof {
            assert(r.cells@.len() == r.width * r.height) by (nonlinear_arith)
                requires
                    r.cells@.len() == r.height * r.width,
            ;
        }
        r
    }

    /// Board width, in cells.
    pub fn width(&self) -> (r: usize)
        ensures
            r == self.spec_width(),
    {
        self.width
    }

    /// Board height, in cells.
    pub fn height(&self) -> (r: usize)
        ensures
            r == self.spec_height(),
    {
        self.height
    }

    /// Reads the panel at an in-bounds position.
    pub fn get(&self, x: usize, y: usize) -> (r: &Panel)
        requires
            self.wf(),
            x < self.spec_width(),
            y < self.spec_height(),
        ensures
            *r == self.cell(x as int, y as int),
    {
        proof {
            lemma_flat_index_bound(self.width as int, self.height as int, x as int, y as int);
            assert(self.height * self.width == self.width * self.height) by (nonlinear_arith);
            assert(self.spec_height() * self.spec_width() < DIM_MAX * DIM_MAX) by (nonlinear_arith)
                requires
                    0 <= self.spec_height() < DIM_MAX,
                    0 <= self.spec_width() < DIM_MAX,
            ;
        }
        &self.cells[y * self.width + x]
    }

    /// Borrows the panel at an in-bounds position as mutable.
    pub fn get_mut(&mut self, x: usize, y: usize) -> (r: &mut Panel)
        requires
            old(self).wf(),
            x < old(self).spec_width(),
            y < old(self).spec_height(),
        ensures
            *r == old(self).cell(x as int, y as int),
            final(self).wf(),
            final(self).spec_width() == old(self).spec_width(),
            final(self).spec_height() == old(self).spec_height(),
            forall|i: int, j: int| 0 <= i < old(self).spec_width() && 0 <= j < old(self).spec_height() ==>
                #[trigger] final(self).cell(i, j) == (if i == x && j == y {
                    *final(r)
                } else {
                    old(self).cell(i, j)
                }),
    {
        proof {
            lemma_flat_index_bound(self.width as int, self.height as int, x as int, y as int);
            assert(self.height * self.width == self.width * self.height) by (nonlinear_arith);
            assert(self.spec_height() * self.spec_width() < DIM_MAX * DIM_MAX) by (nonlinear_arith)
                requires
                    0 <= self.spec_height() < DIM_MAX,
                    0 <= self.spec_width() < DIM_MAX,
            ;
            lemma_flat_update_all(
                self.cells@,
                self.width as int,
                self.height as int,
                x as int,
                y as int,
            );
        }
        let idx = y * self.width + x;
        &mut self.cells[idx]
    }

    /// Writes the panel at an in-bounds position.
    pub fn set(&mut self, x: usize, y: usize, panel: Panel)
        requires
            old(self).wf(),
            x < old(self).spec_width(),
            y < old(self).spec_height(),
        ensures
            final(self).wf(),
            final(self).spec_width() == old(self).spec_width(),
            final(self).spec_height() == old(self).spec_height(),
            forall|i: int, j: int| 0 <= i < old(self).spec_width() && 0 <= j < old(self).spec_height() ==>
                #[trigger] final(self).cell(i, j) == (if i == x && j == y {
                    panel
                } else {
                    old(self).cell(i, j)
                }),
    {
        let r = self.get_mut(x, y);
        *r = panel;
    }

    /// Builds a new `size.0 x size.1` board whose cell `(x, y)` equals this
    /// board's cell `(x - offset.0, y - offset.1)` where that address is in
    /// bounds, and the empty panel elsewhere. This is the single place cell
    /// data is copied; growth and shrink both funnel through it.
    pub fn resize_to(&self, size: (i64, i64), offset: (i64, i64)) -> (r: Field)
        requires
            self.wf(),
            0 <= size.0 < DIM_MAX,
            0 <= size.1 < DIM_MAX,
            -OFFSET_MAX < offset.0 < OFFSET_MAX,
            -OFFSET_MAX < offset.1 < OFFSET_MAX,
        ensures
            r.wf(),
            r.is_resize_of(*self, size.0 as int, size.1 as int, offset.0 as int, offset.1 as int),
    {
        let w = size.0 as usize;
        let h = size.1 as usize;
        let mut cells: Vec<Panel> = Vec::new();
        let mut y: usize = 0;
        while y < h
            invariant
                w == size.0 < DIM_MAX,
                h == size.1 < DIM_MAX,
                y <= h,
                -OFFSET_MAX < offset.0 < OFFSET_MAX,
                -OFFSET_MAX < offset.1 < OFFSET_MAX,
                self.wf(),
                cells@.len() == y * w,
                forall|xx: int, yy: int| 0 <= yy < y && 0 <= xx < w ==>
                    #[trigger] flat_at(cells@, w as int, xx, yy)
                        == (if self.spec_in_bounds(xx - offset.0, yy - offset.1) {
                            self.cell(xx - offset.0, yy - offset.1)
                        } else {
                            Panel::empty_spec()
                        }),
            decreases h - y,
        {
            let mut x: usize = 0;
            while x < w
                invariant
                    w == size.0 < DIM_MAX,
                    h == size.1 < DIM_MAX,
                    y < h,
                    x <= w,
                    -OFFSET_MAX < offset.0 < OFFSET_MAX,
                    -OFFSET_MAX < offset.1 < OFFSET_MAX,
                    self.wf(),
                    cells@.len() == y * w + x,
                    forall|xx: int, yy: int| 0 <= yy < y && 0 <= xx < w ==>
                        #[trigger] flat_at(cells@, w as int, xx, yy)
                            == (if self.spec_in_bounds(xx - offset.0, yy - offset.1) {
                                self.cell(xx - offset.0, yy - offset.1)
                            } else {
                                Panel::empty_spec()
                            }),
                    forall|xx: int| 0 <= xx < x ==>
                        #[trigger] flat_at(cells@, w as int, xx, y as int)
                            == (if self.spec_in_bounds(xx - offset.0, y - offset.1) {
                                self.cell(xx - offset.0, y - offset.1)
                            } else {
                                Panel::empty_spec()
                            }),
                decreases w - x,
            {
                let sx = x as i64 - offset.0;
                let sy = y as i64 - offset.1;
                let inside = 0 <= sx && sx < self.width as i64 && 0 <= sy && sy < self.height as i64;
                let ghost pre = cells@;
                if inside {
                    cells.push(*self.get(sx as usize, sy as usize));
                } else {
                    cells.push(Panel::empty());
                }
                proof {
                    assert forall|xx: int, yy: int|
                        0 <= yy < y && 0 <= xx < w implies
                        #[trigger] flat_at(cells@, w as int, xx, yy)
                            == (if self.spec_in_bounds(xx - offset.0, yy - offset.1) {
                                self.cell(xx - offset.0, yy - offset.1)
                            } else {
                                Panel::empty_spec()
                            }) by {
                        lemma_flat_index_bound(w as int, y as int, xx, yy);
                        assert(flat_at(pre, w as int, xx, yy)
                            == (if self.spec_in_bounds(xx - offset.0, yy - offset.1) {
                                self.cell(xx - offset.0, yy - offset.1)
                            } else {
                                Panel::empty_spec()
                            }));
                    }
                    assert forall|xx: int| 0 <= xx <= x implies
                        #[trigger] flat_at(cells@, w as int, xx, y as int)
                            == (if self.spec_in_bounds(xx - offset.0, y - offset.1) {
                                self.cell(xx - offset.0, y - offset.1)
                            } else {
                                Panel::empty_spec()
                            }) by {
                        if xx < x {
                            lemma_flat_index_bound(w as int, y as int + 1, xx, y as int);
                            assert(flat_at(pre, w as int, xx, y as int)
                                == (if self.spec_in_bounds(xx - offset.0, y - offset.1) {
                                    self.cell(xx - offset.0, y - offset.1)
                                } else {
                                    Panel::empty_spec()
                                }));
                        }
                    }
                }
                x += 1;
            }
            proof {
                assert((y + 1) * w == y * w + w) by (nonlinear_arith);
            }
            y += 1;
        }
        let r = Field { cells, width: w, height: h };
        proof {
            assert(r.cells@.len() == r.width * r.height) by (nonlinear_arith)
                requires
                    r.cells@.len() == r.height * r.width,
            ;
        }
        r
    }
    /// Whether column `x` holds no content.
    pub open spec fn col_empty(&self, x: int) -> bool {
        forall|y: int| 0 <= y < self.spec_height() ==> (#[trigger] self.cell(x, y)).spec_is_empty()
    }

    /// Whether row `y` holds no content.
    pub open spec fn row_empty(&self, y: int) -> bool {
        forall|x: int| 0 <= x < self.spec_width() ==> (#[trigger] self.cell(x, y)).spec_is_empty()
    }

    /// Index of the first column at or after `i` holding content, or the
    /// board width when there is none.
    pub open spec fn first_content_col(&self, i: int) -> int
        decreases self.spec_width() - i,
    {
        if i < 0 || i >= self.spec_width() {
            self.spec_width()
        } else if !self.col_empty(i) {
            i
        } else {
            self.first_content_col(i + 1)
        }
    }

    /// Index of the last column at or before `i` holding content, or `-1`
    /// when there is none.
    pub open spec fn last_content_col(&self, i: int) -> int
        decreases i + 1,
    {
        if i < 0 || i >= self.spec_width() {
            -1
        } else if !self.col_empty(i) {
            i
        } else {
            self.last_content_col(i - 1)
        }
    }

    /// Index of the first row at or after `i` holding content, or the board
    /// height when there is none.
    pub open spec fn first_content_row(&self, i: int) -> int
        decreases self.spec_height() - i,
    {
        if i < 0 || i >= self.spec_height() {
            self.spec_height()
        } else if !self.row_empty(i) {
            i
        } else {
            self.first_content_row(i + 1)
        }
    }

    /// Index of the last row at or before `i` holding content, or `-1` when
    /// there is none.
    pub open spec fn last_content_row(&self, i: int) -> int
        decreases i + 1,
    {
        if i < 0 || i >= self.spec_height() {
            -1
        } else if !self.row_empty(i) {
            i
        } else {
            self.last_content_row(i - 1)
        }
    }

    /// The left edge of the minimal content bounding box: the first column
    /// holding content, or `0` for a board without content.
    pub open spec fn spec_left_bound(&self) -> int {
        if self.first_content_col(0) >= self.spec_width() {
            0
        } else {
            self.first_content_col(0)
        }
    }

    /// One past the right edge of the minimal content bounding box, or `0`
    /// for a board without content.
    pub open spec fn spec_right_bound(&self) -> int {
        self.last_content_col(self.spec_width() - 1) + 1
    }

    /// The top edge of the minimal content bounding box, or `0` for a board
    /// without content.
    pub open spec fn spec_top_bound(&self) -> int {
        if self.first_content_row(0) >= self.spec_height() {
            0
        } else {
            self.first_content_row(0)
        }
    }

    /// One past the bottom edge of the minimal content bounding box, or `0`
    /// for a board without content.
    pub open spec fn spec_bottom_bound(&self) -> int {
        self.last_content_row(self.spec_height() - 1) + 1
    }

    /// Whether the board holds no content at all.
    pub open spec fn all_empty(&self) -> bool {
        forall|x: int, y: int| self.spec_in_bounds(x, y) ==>
            (#[trigger] self.cell(x, y)).spec_is_empty()
    }

    /// Characterizes the forward column scan: everything before the found
    /// column is empty, and the found column (when inside the board) is
    /// not.
    pub proof fn lemma_first_content_col_char(&self, i: int)
        requires
            self.wf(),
            0 <= i <= self.spec_width(),
        ensures
            i <= self.first_content_col(i) <= self.spec_width(),
            self.first_content_col(i) < self.spec_width()
                ==> !self.col_empty(self.first_content_col(i)),
            forall|j: int| i <= j < self.first_content_col(i) ==> #[trigger] self.col_empty(j),
        decreases self.spec_width() - i,
    {
        if i < self.spec_width() {
            if self.col_empty(i) {
                self.lemma_first_content_col_char(i + 1);
            }
        }
    }

    /// Characterizes the backward column scan.
    pub proof fn lemma_last_content_col_char(&self, i: int)
        requires
            self.wf(),
            -1 <= i < self.spec_width(),
        ensures
            -1 <= self.last_content_col(i) <= i,
            self.last_content_col(i) >= 0 ==> !self.col_empty(self.last_content_col(i)),
            forall|j: int| self.last_content_col(i) < j <= i ==> #[trigger] self.col_empty(j),
        decreases i + 1,
    {
        if i >= 0 {
            if self.col_empty(i) {
                self.lemma_last_content_col_char(i - 1);
            }
        }
    }

    /// Characterizes the forward row scan.
    pub proof fn lemma_first_content_row_char(&self, i: int)
        requires
            self.wf(),
            0 <= i <= self.spec_height(),
        ensures
            i <= self.first_content_row(i) <= self.spec_height(),
            self.first_content_row(i) < self.spec_height()
                ==> !self.row_empty(self.first_content_row(i)),
            forall|j: int| i <= j < self.first_content_row(i) ==> #[trigger] self.row_empty(j),
        decreases self.spec_height() - i,
    {
        if i < self.spec_height() {
            if self.row_empty(i) {
                self.lemma_first_content_row_char(i + 1);
            }
        }
    }

    /// Characterizes the backward row scan.
    pub proof fn lemma_last_content_row_char(&self, i: int)
        requires
            self.wf(),
            -1 <= i < self.spec_height(),
        ensures
            -1 <= self.last_content_row(i) <= i,
            self.last_content_row(i) >= 0 ==> !self.row_empty(self.last_content_row(i)),
            forall|j: int| self.last_content_row(i) < j <= i ==> #[trigger] self.row_empty(j),
        decreases i + 1,
    {
        if i >= 0 {
            if self.row_empty(i) {
                self.lemma_last_content_row_char(i - 1);
            }
        }
    }

    /// The content bounds enclose every non-empty cell, are ordered, and
    /// collapse to all zeroes exactly on a board without content; on a
    /// board with content, the extreme columns and rows of the box hold
    /// content.
    pub proof fn lemma_content_bounds_props(&self)
        requires
            self.wf(),
        ensures
            0 <= self.spec_left_bound() <= self.spec_right_bound() <= self.spec_width(),
            0 <= self.spec_top_bound() <= self.spec_bottom_bound() <= self.spec_height(),
            forall|x: int, y: int|
                self.spec_in_bounds(x, y) && !(#[trigger] self.cell(x, y)).spec_is_empty() ==>
                    self.spec_left_bound() <= x < self.spec_right_bound()
                    && self.spec_top_bound() <= y < self.spec_bottom_bound(),
            self.all_empty() ==> self.spec_left_bound() == 0 && self.spec_right_bound() == 0
                && self.spec_top_bound() == 0 && self.spec_bottom_bound() == 0,
            !self.all_empty() ==> self.spec_left_bound() < self.spec_right_bound()
                && self.spec_top_bound() < self.spec_bottom_bound()
                && !self.col_empty(self.spec_left_bound())
                && !self.col_empty(self.spec_right_bound() - 1)
                && !self.row_empty(self.spec_top_bound())
                && !self.row_empty(self.spec_bottom_bound() - 1),
    {
        let w = self.spec_width();
        let h = self.spec_height();
        self.lemma_first_content_col_char(0);
        self.lemma_last_content_col_char(w - 1);
        self.lemma_first_content_row_char(0);
        self.lemma_last_content_row_char(h - 1);
        if self.all_empty() {
            assert forall|j: int| 0 <= j < w implies #[trigger] self.col_empty(j) by {
                assert forall|y: int| 0 <= y < h implies
                    (#[trigger] self.cell(j, y)).spec_is_empty() by {
                    assert(self.spec_in_bounds(j, y));
                }
            }
            assert forall|j: int| 0 <= j < h implies #[trigger] self.row_empty(j) by {
                assert forall|x: int| 0 <= x < w implies
                    (#[trigger] self.cell(x, j)).spec_is_empty() by {
                    assert(self.spec_in_bounds(x, j));
                }
            }
            assert(self.first_content_col(0) == w);
            assert(self.last_content_col(w - 1) == -1);
            assert(self.first_content_row(0) == h);
            assert(self.last_content_row(h - 1) == -1);
        } else {
            assert(exists|x: int, y: int|
                self.spec_in_bounds(x, y) && !(#[trigger] self.cell(x, y)).spec_is_empty());
            let (x0, y0) = choose|x: int, y: int|
                self.spec_in_bounds(x, y) && !(#[trigger] self.cell(x, y)).spec_is_empty();
            assert(!self.col_empty(x0));
            assert(!self.row_empty(y0));
            assert(self.first_content_col(0) <= x0);
            assert(self.last_content_col(w - 1) >= x0);
            assert(self.first_content_row(0) <= y0);
            assert(self.last_content_row(h - 1) >= y0);
            assert forall|x: int, y: int|
                self.spec_in_bounds(x, y) && !(#[trigger] self.cell(x, y)).spec_is_empty() implies
                self.spec_left_bound() <= x < self.spec_right_bound()
                && self.spec_top_bound() <= y < self.spec_bottom_bound() by {
                assert(!self.col_empty(x));
                assert(!self.row_empty(y));
                assert(self.first_content_col(0) <= x);
                assert(self.last_content_col(w - 1) >= x);
                assert(self.first_content_row(0) <= y);
                assert(self.last_content_row(h - 1) >= y);
            }
        }
    }

    /// Tests whether column `x` is all empty.
    fn is_col_empty(&self, x: usize) -> (r: bool)
        requires
            self.wf(),
            x < self.spec_width(),
        ensures
            r == self.col_empty(x as int),
    {
        let h = self.height;
        let mut y: usize = 0;
        while y < h
            invariant
                self.wf(),
                h == self.spec_height(),
                x < self.spec_width(),
                y <= h,
                forall|j: int| 0 <= j < y ==> (#[trigger] self.cell(x as int, j)).spec_is_empty(),
            decreases h - y,
        {
            if !self.get(x, y).is_empty() {
                return false;
            }
            y += 1;
        }
        true
    }

    /// Tests whether row `y` is all empty.
    fn is_row_empty(&self, y: usize) -> (r: bool)
        requires
            self.wf(),
            y < self.spec_height(),
        ensures
            r == self.row_empty(y as int),
    {
        let w = self.width;
        let mut x: usize = 0;
        while x < w
            invariant
                self.wf(),
                w == self.spec_width(),
                y < self.spec_height(),
                x <= w,
                forall|j: int| 0 <= j < x ==> (#[trigger] self.cell(j, y as int)).spec_is_empty(),
            decreases w - x,
        {
            if !self.get(x, y).is_empty() {
                return false;
            }
            x += 1;
        }
        true
    }

    /// The left bound of the content box, by a forward column scan.
    fn left_bound(&self) -> (r: usize)
        requires
            self.wf(),
        ensures
            r == self.spec_left_bound(),
    {
        let w = self.width;
        let mut i: usize = 0;
        while i < w
            invariant
                self.wf(),
                w == self.spec_width(),
                i <= w,
                self.first_content_col(0) == self.first_content_col(i as int),
            decreases w - i,
        {
            if !self.is_col_empty(i) {
                proof {
                    assert(self.first_content_col(i as int) == i);
                }
                return i;
            }
            proof {
                assert(self.first_content_col(i as int) == self.first_content_col(i + 1));
            }
            i += 1;
        }
        proof {
            assert(self.first_content_col(i as int) == self.spec_width());
        }
        0
    }

    /// One past the right bound of the content box, by a backward column
    /// scan.
    fn right_bound(&self) -> (r: usize)
        requires
            self.wf(),
        ensures
            r == self.spec_right_bound(),
    {
        let w = self.width;
        let mut i: usize = w;
        while i > 0
            invariant
                self.wf(),
                w == self.spec_width(),
                i <= w,
                self.last_content_col(w - 1) == self.last_content_col(i - 1),
            decreases i,
        {
            if !self.is_col_empty(i - 1) {
                proof {
                    assert(self.last_content_col(i - 1) == i - 1);
                }
                return i;
            }
            proof {
                assert(self.last_content_col(i - 1) == self.last_content_col(i - 2));
            }
            i -= 1;
        }
        proof {
            assert(self.last_content_col(-1) == -1);
        }
        0
    }

    /// The top bound of the content box, by a forward row scan.
    fn top_bound(&self) -> (r: usize)
        requires
            self.wf(),
        ensures
            r == self.spec_top_bound(),
    {
        let h = self.height;
        let mut i: usize = 0;
        while i < h
            invariant
                self.wf(),
                h == self.spec_height(),
                i <= h,
                self.first_content_row(0) == self.first_content_row(i as int),
            decreases h - i,
        {
            if !self.is_row_empty(i) {
                proof {
                    assert(self.first_content_row(i as int) == i);
                }
                return i;
            }
            proof {
                assert(self.first_content_row(i as int) == self.first_content_row(i + 1));
            }
            i += 1;
        }
        proof {
            assert(self.first_content_row(i as int) == self.spec_height());
        }
        0
    }

    /// One past the bottom bound of the content box, by a backward row
    /// scan.
    fn bottom_bound(&self) -> (r: usize)
        requires
            self.wf(),
        ensures
            r == self.spec_bottom_bound(),
    {
        let h = self.height;
        let mut i: usize = h;
        while i > 0
            invariant
                self.wf(),
                h == self.spec_height(),
                i <= h,
                self.last_content_row(h - 1) == self.last_content_row(i - 1),
            decreases i,
        {
            if !self.is_row_empty(i - 1) {
                proof {
                    assert(self.last_content_row(i - 1) == i - 1);
                }
                return i;
            }
            proof {
                assert(self.last_content_row(i - 1) == self.last_content_row(i - 2));
            }
            i -= 1;
        }
        proof {
            assert(self.last_content_row(-1) == -1);
        }
        0
    }

    /// Every cell as an `(x, y, panel)` triple, in row-major order.
    pub fn cells(&self) -> (r: Vec<(usize, usize, Panel)>)
        requires
            self.wf(),
        ensures
            r@.len() == self.spec_width() * self.spec_height(),
            forall|i: int| 0 <= i < r@.len() ==> #[trigger] r@[i] == (
                (i % self.spec_width()) as usize,
                (i / self.spec_width()) as usize,
                self.cell(i % self.spec_width(), i / self.spec_width()),
            ),
    {
        proof {
            assert(0 <= (self.width as int) * (self.height as int) < DIM_MAX * DIM_MAX)
                by (nonlinear_arith)
                requires
                    0 <= self.width < DIM_MAX,
                    0 <= self.height < DIM_MAX,
            ;
            assert((self.height as int) * (self.width as int)
                == (self.width as int) * (self.height as int)) by (nonlinear_arith);
        }
        let w = self.width;
        let n = self.width * self.height;
        let mut out: Vec<(usize, usize, Panel)> = Vec::new();
        let mut i: usize = 0;
        while i < n
            invariant
                self.wf(),
                w == self.spec_width(),
                n == self.spec_width() * self.spec_height(),
                i <= n,
                out@.len() == i,
                forall|j: int| 0 <= j < i ==> #[trigger] out@[j] == (
                    (j % self.spec_width()) as usize,
                    (j / self.spec_width()) as usize,
                    self.cell(j % self.spec_width(), j / self.spec_width()),
                ),
            decreases n - i,
        {
            proof {
                vstd::arithmetic::div_mod::lemma_fundamental_div_mod(i as int, w as int);
                vstd::arithmetic::div_mod::lemma_mod_bound(i as int, w as int);
                assert(0 <= (i as int) / (w as int) < self.spec_height()) by (nonlinear_arith)
                    requires
                        i == (w as int) * ((i as int) / (w as int)) + (i as int) % (w as int),
                        0 <= (i as int) % (w as int) < w,
                        0 <= i < self.spec_width() * self.spec_height(),
                        w == self.spec_width(),
                        0 < w,
                ;
                assert(((i as int) / (w as int)) * (w as int) + (i as int) % (w as int)
                    == i as int) by (nonlinear_arith)
                    requires
                        i == (w as int) * ((i as int) / (w as int)) + (i as int) % (w as int),
                ;
            }
            let x = i % w;
            let y = i / w;
            out.push((x, y, *self.get(x, y)));
            i += 1;
        }
        out
    }

    /// The non-empty cells as `(x, y, kind)` triples, in row-major order:
    /// each listed triple is a non-empty cell of the board, every non-empty
    /// cell is listed, and the listing is strictly ordered by row and then
    /// column. A renderer resolves each kind to its artwork and draws a
    /// unit quad at the cell position.
    pub fn non_empty_cells(&self) -> (r: Vec<(usize, usize, crate::panel::PanelKind)>)
        requires
            self.wf(),
        ensures
            forall|i: int| 0 <= i < r@.len() ==> {
                &&& self.spec_in_bounds(#[trigger] r@[i].0 as int, r@[i].1 as int)
                &&& self.cell(r@[i].0 as int, r@[i].1 as int).kind == r@[i].2
                &&& r@[i].2 != crate::panel::PanelKind::Empty
            },
            forall|x: int, y: int|
                self.spec_in_bounds(x, y) && !(#[trigger] self.cell(x, y)).spec_is_empty() ==>
                    exists|i: int| 0 <= i < r@.len()
                        && #[trigger] r@[i] == (x as usize, y as usize, self.cell(x, y).kind),
            forall|i: int, j: int| 0 <= i < j < r@.len() ==>
                (#[trigger] r@[i]).1 < (#[trigger] r@[j]).1
                || (r@[i].1 == r@[j].1 && r@[i].0 < r@[j].0),
    {
        let w = self.width;
        let h = self.height;
        let mut out: Vec<(usize, usize, crate::panel::PanelKind)> = Vec::new();
        let mut y: usize = 0;
        while y < h
            invariant
                self.wf(),
                w == self.spec_width(),
                h == self.spec_height(),
                y <= h,
                forall|i: int| 0 <= i < out@.len() ==> {
                    &&& self.spec_in_bounds(#[trigger] out@[i].0 as int, out@[i].1 as int)
                    &&& self.cell(out@[i].0 as int, out@[i].1 as int).kind == out@[i].2
                    &&& out@[i].2 != crate::panel::PanelKind::Empty
                    &&& out@[i].1 < y
                },
                forall|x: int, yy: int|
                    0 <= x < w && 0 <= yy < y && !(#[trigger] self.cell(x, yy)).spec_is_empty()
                        ==> exists|i: int| 0 <= i < out@.len()
                            && #[trigger] out@[i] == (x as usize, yy as usize, self.cell(x, yy).kind),
                forall|i: int, j: int| 0 <= i < j < out@.len() ==>
                    (#[trigger] out@[i]).1 < (#[trigger] out@[j]).1
                    || (out@[i].1 == out@[j].1 && out@[i].0 < out@[j].0),
            decreases h - y,
        {
            let mut x: usize = 0;
            while x < w
                invariant
                    self.wf(),
                    w == self.spec_width(),
                    h == self.spec_height(),
                    y < h,
                    x <= w,
                    forall|i: int| 0 <= i < out@.len() ==> {
                        &&& self.spec_in_bounds(#[trigger] out@[i].0 as int, out@[i].1 as int)
                        &&& self.cell(out@[i].0 as int, out@[i].1 as int).kind == out@[i].2
                        &&& out@[i].2 != crate::panel::PanelKind::Empty
                        &&& (out@[i].1 < y || (out@[i].1 == y && out@[i].0 < x))
                    },
                    forall|xx: int, yy: int|
                        0 <= xx < w && 0 <= yy < y
                            && !(#[trigger] self.cell(xx, yy)).spec_is_empty()
                            ==> exists|i: int| 0 <= i < out@.len()
                                && #[trigger] out@[i]
                                    == (xx as usize, yy as usize, self.cell(xx, yy).kind),
                    forall|xx: int|
                        0 <= xx < x && !(#[trigger] self.cell(xx, y as int)).spec_is_empty()
                            ==> exists|i: int| 0 <= i < out@.len()
                                && #[trigger] out@[i]
                                    == (xx as usize, y, self.cell(xx, y as int).kind),
                    forall|i: int, j: int| 0 <= i < j < out@.len() ==>
                        (#[trigger] out@[i]).1 < (#[trigger] out@[j]).1
                        || (out@[i].1 == out@[j].1 && out@[i].0 < out@[j].0),
                decreases w - x,
            {
                let ghost pre = out@;
                let p = *self.get(x, y);
                if !p.is_empty() {
                    out.push((x, y, p.kind));
                }
                proof {
                    if !p.spec_is_empty() {
                        assert(out@[pre.len() as int] == (x, y, self.cell(x as int, y as int).kind));
                        assert forall|xx: int|
                            0 <= xx <= x
                                && !(#[trigger] self.cell(xx, y as int)).spec_is_empty() implies
                            exists|i: int| 0 <= i < out@.len()
                                && #[trigger] out@[i]
                                    == (xx as usize, y, self.cell(xx, y as int).kind) by {
                            if xx < x {
                                let i0 = choose|i: int| 0 <= i < pre.len()
                                    && #[trigger] pre[i]
                                        == (xx as usize, y, self.cell(xx, y as int).kind);
                                assert(out@[i0] == (xx as usize, y, self.cell(xx, y as int).kind));
                            } else {
                                assert(out@[pre.len() as int]
                                    == (xx as usize, y, self.cell(xx, y as int).kind));
                            }
                        }
                        assert forall|xx: int, yy: int|
                            0 <= xx < w && 0 <= yy < y
                                && !(#[trigger] self.cell(xx, yy)).spec_is_empty() implies
                            exists|i: int| 0 <= i < out@.len()
                                && #[trigger] out@[i]
                                    == (xx as usize, yy as usize, self.cell(xx, yy).kind) by {
                            let i0 = choose|i: int| 0 <= i < pre.len()
                                && #[trigger] pre[i]
                                    == (xx as usize, yy as usize, self.cell(xx, yy).kind);
                            assert(out@[i0]
                                == (xx as usize, yy as usize, self.cell(xx, yy).kind));
                        }
                    }
                }
                x += 1;
            }
            y += 1;
        }
        out
    }

    /// The four bounds of the minimal rectangle enclosing all content, as
    /// `(left, right, top, bottom)` with `right` and `bottom` exclusive.
    /// All four are `0` for a board without content.
    pub fn content_bounds(&self) -> (r: (usize, usize, usize, usize))
        requires
            self.wf(),
        ensures
            r.0 == self.spec_left_bound(),
            r.1 == self.spec_right_bound(),
            r.2 == self.spec_top_bound(),
            r.3 == self.spec_bottom_bound(),
    {
        (self.left_bound(), self.right_bound(), self.top_bound(), self.bottom_bound())
    }
}

impl Field {
    /// Whether two boards have the same representation: equal dimensions
    /// and an equal cell buffer. This is what `==` on boards means; see
    /// [`Field::lemma_eq_means_same_cells`] for the cellwise reading.
    pub closed spec fn same_repr(&self, other: &Field) -> bool {
        &&& self.width == other.width
        &&& self.height == other.height
        &&& self.cells@ == other.cells@
    }

    /// For well-formed boards, `==` holds exactly when the dimensions match
    /// and every cell matches.
    pub proof fn lemma_eq_means_same_cells(&self, other: &Field)
        requires
            self.wf(),
            other.wf(),
        ensures
            self.same_repr(other) <==> {
                &&& self.spec_width() == other.spec_width()
                &&& self.spec_height() == other.spec_height()
                &&& forall|x: int, y: int| self.spec_in_bounds(x, y) ==>
                    #[trigger] self.cell(x, y) == other.cell(x, y)
            },
    {
        let w = self.spec_width();
        let h = self.spec_height();
        if w == other.spec_width() && h == other.spec_height()
            && (forall|x: int, y: int| self.spec_in_bounds(x, y) ==>
                #[trigger] self.cell(x, y) == other.cell(x, y)) {
            assert((h * w) == (w * h)) by (nonlinear_arith);
            assert(self.cells@ =~= other.cells@) by {
                assert forall|k: int| 0 <= k < self.cells@.len() implies
                    self.cells@[k] == other.cells@[k] by {
                    vstd::arithmetic::div_mod::lemma_fundamental_div_mod(k, w);
                    vstd::arithmetic::div_mod::lemma_mod_bound(k, w);
                    let y = k / w;
                    let x = k % w;
                    assert(0 <= y < h) by (nonlinear_arith)
                        requires
                            k == w * y + x,
                            0 <= x < w,
                            0 <= k < h * w,
                    ;
                    assert(y * w + x == k) by (nonlinear_arith)
                        requires
                            k == w * y + x,
                    ;
                    assert(self.cell(x, y) == other.cell(x, y));
                }
            }
        }
    }
}

impl PartialEq for Field {
    /// Boards are equal when they have the same dimensions and the same
    /// buffer of cells.
    fn eq(&self, other: &Field) -> (r: bool) {
        if self.width != other.width || self.height != other.height
            || self.cells.len() != other.cells.len() {
            return false;
        }
        let n = self.cells.len();
        let mut i: usize = 0;
        while i < n
            invariant
                n == self.cells@.len(),
                n == other.cells@.len(),
                i <= n,
                forall|k: int| 0 <= k < i ==> self.cells@[k] == other.cells@[k],
            decreases n - i,
        {
            if self.cells[i] != other.cells[i] {
                return false;
            }
            i += 1;
        }
        proof {
            assert(self.cells@ =~= other.cells@);
        }
        true
    }
}

impl vstd::std_specs::cmp::PartialEqSpecImpl for Field {
    open spec fn obeys_eq_spec() -> bool {
        true
    }

    open spec fn eq_spec(&self, other: &Field) -> bool {
        self.same_repr(other)
    }
}

/// A resize and its inverse recover every cell that was in bounds both in
/// the original board and in the intermediate one.
pub proof fn lemma_resize_round_trip(
    f0: Field,
    f1: Field,
    f2: Field,
    nw: int,
    nh: int,
    dx: int,
    dy: int,
)
    requires
        f1.is_resize_of(f0, nw, nh, dx, dy),
        f2.is_resize_of(f1, f0.spec_width(), f0.spec_height(), -dx, -dy),
    ensures
        f2.spec_width() == f0.spec_width(),
        f2.spec_height() == f0.spec_height(),
        forall|x: int, y: int|
            f0.spec_in_bounds(x, y) && f1.spec_in_bounds(x + dx, y + dy) ==>
                #[trigger] f2.cell(x, y) == f0.cell(x, y),
{
    assert forall|x: int, y: int|
        f0.spec_in_bounds(x, y) && f1.spec_in_bounds(x + dx, y + dy) implies
        #[trigger] f2.cell(x, y) == f0.cell(x, y) by {
        assert(f2.cell(x, y) == f1.cell(x + dx, y + dy));
        assert(f1.cell(x + dx, y + dy) == f0.cell(x, y));
    }
}

/// After a collapse resize, no content is lost, the surviving borders hold
/// content, and a board without content degenerates to zero size.
#[verifier::rlimit(50)]
pub proof fn lemma_collapse_correct(f0: Field, f1: Field)
    requires
        f0.wf(),
        f1.is_resize_of(
            f0,
            f0.spec_right_bound() - f0.spec_left_bound(),
            f0.spec_bottom_bound() - f0.spec_top_bound(),
            -f0.spec_left_bound(),
            -f0.spec_top_bound(),
        ),
    ensures
        forall|x: int, y: int|
            f0.spec_in_bounds(x, y) && !(#[trigger] f0.cell(x, y)).spec_is_empty() ==>
                f1.spec_in_bounds(x - f0.spec_left_bound(), y - f0.spec_top_bound())
                && f1.cell(x - f0.spec_left_bound(), y - f0.spec_top_bound()) == f0.cell(x, y),
        f0.all_empty() ==> f1.spec_width() == 0 && f1.spec_height() == 0,
        !f0.all_empty() ==> f1.spec_width() > 0 && f1.spec_height() > 0
            && !f1.col_empty(0) && !f1.col_empty(f1.spec_width() - 1)
            && !f1.row_empty(0) && !f1.row_empty(f1.spec_height() - 1),
{
    f0.lemma_content_bounds_props();
    let l = f0.spec_left_bound();
    let r = f0.spec_right_bound();
    let t = f0.spec_top_bound();
    let b = f0.spec_bottom_bound();
    assert forall|x: int, y: int|
        f0.spec_in_bounds(x, y) && !(#[trigger] f0.cell(x, y)).spec_is_empty() implies
        f1.spec_in_bounds(x - l, y - t) && f1.cell(x - l, y - t) == f0.cell(x, y) by {
        assert(l <= x < r && t <= y < b);
        assert(f1.cell(x - l, y - t) == f0.cell(x, y));
    }
    if !f0.all_empty() {
        // The border columns and rows of the collapsed board hold content:
        // a witness cell of the extreme old column or row survives at the
        // border of the new board.
        assert(!f0.col_empty(l));
        assert(exists|y: int| 0 <= y < f0.spec_height()
            && !(#[trigger] f0.cell(l, y)).spec_is_empty());
        let yl = choose|y: int| 0 <= y < f0.spec_height()
            && !(#[trigger] f0.cell(l, y)).spec_is_empty();
        assert(t <= yl < b);
        assert(f1.cell(0, yl - t) == f0.cell(l, yl));
        assert(!f1.col_empty(0));

        assert(!f0.col_empty(r - 1));
        assert(exists|y: int| 0 <= y < f0.spec_height()
            && !(#[trigger] f0.cell(r - 1, y)).spec_is_empty());
        let yr = choose|y: int| 0 <= y < f0.spec_height()
            && !(#[trigger] f0.cell(r - 1, y)).spec_is_empty();
        assert(t <= yr < b);
        assert(f1.cell(r - 1 - l, yr - t) == f0.cell(r - 1, yr));
        assert(!f1.col_empty(f1.spec_width() - 1));

        assert(!f0.row_empty(t));
        assert(exists|x: int| 0 <= x < f0.spec_width()
            && !(#[trigger] f0.cell(x, t)).spec_is_empty());
        let xt = choose|x: int| 0 <= x < f0.spec_width()
            && !(#[trigger] f0.cell(x, t)).spec_is_empty();
        assert(l <= xt < r);
        assert(f1.cell(xt - l, 0) == f0.cell(xt, t));
        assert(!f1.row_empty(0));

        assert(!f0.row_empty(b - 1));
        assert(exists|x: int| 0 <= x < f0.spec_width()
            && !(#[trigger] f0.cell(x, b - 1)).spec_is_empty());
        let xb = choose|x: int| 0 <= x < f0.spec_width()
            && !(#[trigger] f0.cell(x, b - 1)).spec_is_empty();
        assert(l <= xb < r);
        assert(f1.cell(xb - l, b - 1 - t) == f0.cell(xb, b - 1));
        assert(!f1.row_empty(f1.spec_height() - 1));
    }
}

/// A collapse of a board that is already minimal (its borders hold
/// content) keeps every cell in place.
pub proof fn lemma_collapse_minimal_noop(f0: Field, f1: Field)
    requires
        f0.wf(),
        f0.spec_width() > 0,
        f0.spec_height() > 0,
        !f0.col_empty(0),
        !f0.col_empty(f0.spec_width() - 1),
        !f0.row_empty(0),
        !f0.row_empty(f0.spec_height() - 1),
        f1.is_resize_of(
            f0,
            f0.spec_right_bound() - f0.spec_left_bound(),
            f0.spec_bottom_bound() - f0.spec_top_bound(),
            -f0.spec_left_bound(),
            -f0.spec_top_bound(),
        ),
    ensures
        f0.spec_left_bound() == 0,
        f0.spec_top_bound() == 0,
        f0.spec_right_bound() == f0.spec_width(),
        f0.spec_bottom_bound() == f0.spec_height(),
        f1.spec_width() == f0.spec_width(),
        f1.spec_height() == f0.spec_height(),
        forall|x: int, y: int| f0.spec_in_bounds(x, y) ==>
            #[trigger] f1.cell(x, y) == f0.cell(x, y),
{
    f0.lemma_first_content_col_char(0);
    f0.lemma_last_content_col_char(f0.spec_width() - 1);
    f0.lemma_first_content_row_char(0);
    f0.lemma_last_content_row_char(f0.spec_height() - 1);
    assert(f0.first_content_col(0) == 0);
    assert(f0.last_content_col(f0.spec_width() - 1) == f0.spec_width() - 1);
    assert(f0.first_content_row(0) == 0);
    assert(f0.last_content_row(f0.spec_height() - 1) == f0.spec_height() - 1);
    assert forall|x: int, y: int| f0.spec_in_bounds(x, y) implies
        #[trigger] f1.cell(x, y) == f0.cell(x, y) by {
        assert(f1.cell(x, y) == f0.cell(x, y));
    }
}

/// Whether a signed cell address lies inside the board's bounds.
pub fn in_bounds(field: &Field, pos: (i64, i64)) -> (r: bool)
    requires
        field.wf(),
    ensures
        r == field.spec_in_bounds(pos.0 as int, pos.1 as int),
{
    if pos.0 >= 0 && pos.1 >= 0 {
        pos.0 < field.width() as i64 && pos.1 < field.height() as i64
    } else {
        false
    }
}

} // verus!
