//! A uniform-cell spatial bucket grid.
//!
//! The world rectangle is partitioned into `cell_size`-sided square cells;
//! each cell holds a bounded list of items. Inserts into a full cell, and
//! inserts at positions outside the covered rectangle, are silently
//! dropped; queries at any position return a (possibly empty) snapshot and
//! never fail.

use vstd::prelude::*;
use crate::vec2::Vec2;
use crate::{SCALE, MAX_WORLD_UNITS, MAX_MARKER_PER_CELL};

verus! {

/// A spatial index of `T` items over a `width` x `height` block of cells,
/// each covering `cell_size` world units.
pub struct Grid<T> {
    width: usize,
    height: usize,
    cell_size: usize,
    cells: Vec<Vec<T>>,
}

impl<T: Copy> Grid<T> {
    /// Number of cell columns.
    pub closed spec fn spec_width(self) -> int {
        self.width as int
    }

    /// Number of cell rows.
    pub closed spec fn spec_height(self) -> int {
        self.height as int
    }

    /// Side of a cell, in world units.
    pub closed spec fn spec_cell_size(self) -> int {
        self.cell_size as int
    }

    /// The per-cell item lists, row-major.
    pub closed spec fn cells_view(self) -> Seq<Seq<T>> {
        self.cells@.map_values(|v: Vec<T>| v@)
    }

    /// Side of a cell, in position sub-units.
    pub open spec fn span(self) -> int {
        self.spec_cell_size() * SCALE
    }

    /// Structural invariant: bounded dimensions, a dense cell array and
    /// the per-cell occupancy cap.
    pub open spec fn wf(self) -> bool {
        &&& 1 <= self.spec_cell_size() <= MAX_WORLD_UNITS as int
        &&& 0 <= self.spec_width() <= MAX_WORLD_UNITS as int
        &&& 0 <= self.spec_height() <= MAX_WORLD_UNITS as int
        &&& self.spec_width() * self.spec_cell_size() <= MAX_WORLD_UNITS as int
        &&& self.spec_height() * self.spec_cell_size() <= MAX_WORLD_UNITS as int
        &&& self.cells_view().len() == self.spec_width() * self.spec_height()
        &&& forall|i: int|
            0 <= i < self.cells_view().len() ==> (#[trigger] self.cells_view()[i]).len()
                <= MAX_MARKER_PER_CELL as int
    }

    /// The two grids have the same geometry.
    pub open spec fn same_dims(self, other: Grid<T>) -> bool {
        &&& self.spec_width() == other.spec_width()
        &&& self.spec_height() == other.spec_height()
        &&& self.spec_cell_size() == other.spec_cell_size()
    }

    /// Cell column of a position; negative positions map to the
    /// out-of-bounds sentinel -1.
    pub open spec fn cell_x_of(self, pos: Vec2) -> int {
        if pos.x < 0 {
            -1
        } else {
            pos.x as int / self.span()
        }
    }

    /// Cell row of a position.
    pub open spec fn cell_y_of(self, pos: Vec2) -> int {
        if pos.y < 0 {
            -1
        } else {
            pos.y as int / self.span()
        }
    }

    /// Whether (cx, cy) is a cell of the grid.
    pub open spec fn cell_in_bounds(self, cx: int, cy: int) -> bool {
        &&& 0 <= cx < self.spec_width()
        &&& 0 <= cy < self.spec_height()
    }

    /// Row-major index of a cell.
    pub open spec fn cell_index(self, cx: int, cy: int) -> int {
        cy * self.spec_width() + cx
    }

    /// Contents of a cell.
    pub open spec fn cell_at(self, cx: int, cy: int) -> Seq<T>
        recommends self.cell_in_bounds(cx, cy),
    {
        self.cells_view()[self.cell_index(cx, cy)]
    }

    /// Contents of a cell, or empty when (cx, cy) is outside the grid.
    pub open spec fn cell_or_empty(self, cx: int, cy: int) -> Seq<T> {
        if self.cell_in_bounds(cx, cy) {
            self.cell_at(cx, cy)
        } else {
            Seq::empty()
        }
    }

    /// A cell's row-major index is within the cell array.
    pub proof fn lemma_cell_index_in_range(self, cx: int, cy: int)
        requires
            self.wf(),
            self.cell_in_bounds(cx, cy),
        ensures
            0 <= self.cell_index(cx, cy) < self.cells_view().len(),
    {
        let w = self.spec_width();
        let h = self.spec_height();
        assert(0 <= cy * w + cx < w * h) by (nonlinear_arith)
            requires 0 <= cx < w, 0 <= cy < h,
        ;
    }

    /// Builds a grid of empty cells covering a `width` x `height` world
    /// (in whole world units) with square cells of `cell_size` units; a
    /// trailing remainder of the world narrower than a cell is not
    /// covered.
    pub fn new(width: usize, height: usize, cell_size: usize) -> (r: Grid<T>)
        requires
            1 <= cell_size <= MAX_WORLD_UNITS,
            width <= MAX_WORLD_UNITS,
            height <= MAX_WORLD_UNITS,
        ensures
            r.wf(),
            r.spec_width() == width as int / cell_size as int,
            r.spec_height() == height as int / cell_size as int,
            r.spec_cell_size() == cell_size as int,
            forall|i: int| 0 <= i < r.cells_view().len() ==> (#[trigger] r.cells_view()[i]).len() == 0,
    {
        let w: usize = width / cell_size;
        let h: usize = height / cell_size;
        proof {
            vstd::arithmetic::div_mod::lemma_fundamental_div_mod(width as int, cell_size as int);
            vstd::arithmetic::div_mod::lemma_fundamental_div_mod(height as int, cell_size as int);
            assert(w * h <= MAX_WORLD_UNITS * MAX_WORLD_UNITS) by (nonlinear_arith)
                requires 0 <= w <= MAX_WORLD_UNITS, 0 <= h <= MAX_WORLD_UNITS,
            ;
            assert(w as int * cell_size as int <= width as int && h as int * cell_size as int
                <= height as int) by (nonlinear_arith)
                requires
                    cell_size as int > 0,
                    width as int == cell_size as int * (w as int) + width as int % (cell_size as int),
                    height as int == cell_size as int * (h as int) + height as int % (cell_size as int),
                    width as int % (cell_size as int) >= 0,
                    height as int % (cell_size as int) >= 0,
            ;
        }
        let n: usize = w * h;
        let mut cells: Vec<Vec<T>> = Vec::new();
        let mut i: usize = 0;
        while i < n
            invariant
                i <= n,
                cells@.len() == i as int,
                forall|j: int| 0 <= j < i as int ==> (#[trigger] cells@[j])@.len() == 0,
            decreases n - i,
        {
            cells.push(Vec::new());
            i = i + 1;
        }
        Grid { width: w, height: h, cell_size, cells }
    }

    /// Whether (x, y) names a cell of the grid.
    pub fn check_bounds(&self, x: usize, y: usize) -> (r: bool)
        ensures
            r == self.cell_in_bounds(x as int, y as int),
    {
        x < self.width && y < self.height
    }

    /// Row-major index of the in-bounds cell (x, y).
    pub fn get_index(&self, x: usize, y: usize) -> (r: usize)
        requires
            self.wf(),
            self.cell_in_bounds(x as int, y as int),
        ensures
            r as int == self.cell_index(x as int, y as int),
            r < self.cells_view().len(),
    {
        proof {
            self.lemma_cell_index_in_range(x as int, y as int);
            assert(self.spec_width() * self.spec_height() <= 32768 * 32768) by (nonlinear_arith)
                requires
                    0 <= self.spec_width() <= 32768,
                    0 <= self.spec_height() <= 32768,
            ;
            assert(y as int * self.spec_width() <= y as int * self.spec_width() + x as int);
        }
        y * self.width + x
    }

    /// Cell coordinates of a position; -1 marks a negative coordinate.
    pub fn get_cell_coords(&self, pos: Vec2) -> (r: (i64, i64))
        requires
            self.wf(),
        ensures
            r.0 == self.cell_x_of(pos),
            r.1 == self.cell_y_of(pos),
    {
        let span: i64 = (self.cell_size as i64) * SCALE;
        let cx: i64 = if pos.x < 0 { -1 } else { pos.x / span };
        let cy: i64 = if pos.y < 0 { -1 } else { pos.y / span };
        (cx, cy)
    }

    /// The cell array after inserting `value` at `pos`: unchanged when the
    /// position falls outside the grid or its cell is full.
    pub open spec fn spec_inserted(self, pos: Vec2, value: T) -> Seq<Seq<T>> {
        let cx = self.cell_x_of(pos);
        let cy = self.cell_y_of(pos);
        if self.cell_in_bounds(cx, cy) && self.cell_at(cx, cy).len() < MAX_MARKER_PER_CELL as int {
            self.cells_view().update(self.cell_index(cx, cy), self.cell_at(cx, cy).push(value))
        } else {
            self.cells_view()
        }
    }

    /// Inserts `value` at the cell of `pos`; a no-op outside the grid or
    /// into a full cell.
    pub fn add(&mut self, pos: Vec2, value: T)
        requires
            old(self).wf(),
        ensures
            final(self).wf(),
            final(self).same_dims(*old(self)),
            final(self).cells_view() == old(self).spec_inserted(pos, value),
    {
        let ghost g = *self;
        let (cx, cy) = self.get_cell_coords(pos);
        if 0 <= cx && cx < self.width as i64 && 0 <= cy && cy < self.height as i64 {
            let idx = self.get_index(cx as usize, cy as usize);
            if self.cells[idx].len() < MAX_MARKER_PER_CELL {
                self.cells[idx].push(value);
                proof {
                    assert(self.cells_view() =~= g.cells_view().update(
                        g.cell_index(cx as int, cy as int),
                        g.cell_at(cx as int, cy as int).push(value),
                    ));
                }
            } else {
                proof {
                    assert(self.cells_view() =~= g.spec_inserted(pos, value));
                }
            }
        } else {
            proof {
                assert(self.cells_view() =~= g.spec_inserted(pos, value));
            }
        }
    }

    /// Appends the contents of cell (cx, cy) — nothing when it is outside
    /// the grid — to `out`.
    fn append_cell(&self, out: &mut Vec<T>, cx: i64, cy: i64)
        requires
            self.wf(),
        ensures
            final(out)@ == old(out)@ + self.cell_or_empty(cx as int, cy as int),
    {
        if 0 <= cx && cx < self.width as i64 && 0 <= cy && cy < self.height as i64 {
            let idx = self.get_index(cx as usize, cy as usize);
            let ghost cell = self.cell_at(cx as int, cy as int);
            let n = self.cells[idx].len();
            let mut j: usize = 0;
            while j < n
                invariant
                    self.wf(),
                    j <= n,
                    idx < self.cells@.len(),
                    n as int == cell.len(),
                    cell == self.cells@[idx as int]@,
                    out@ == old(out)@ + cell.take(j as int),
                decreases n - j,
            {
                out.push(self.cells[idx][j]);
                proof {
                    assert(cell.take(j as int + 1) =~= cell.take(j as int).push(cell[j as int]));
                }
                j = j + 1;
            }
            proof {
                assert(cell.take(n as int) =~= cell);
            }
        } else {
            proof {
                assert(out@ =~= old(out)@ + Seq::<T>::empty());
            }
        }
    }

    /// Everything in the 3x3 block of cells centred on the cell of `pos`,
    /// in row-major block order; cells outside the grid contribute
    /// nothing.
    pub open spec fn neighborhood(self, pos: Vec2) -> Seq<T> {
        let cx = self.cell_x_of(pos);
        let cy = self.cell_y_of(pos);
        self.cell_or_empty(cx - 1, cy - 1) + self.cell_or_empty(cx - 1, cy) + self.cell_or_empty(
            cx - 1,
            cy + 1,
        ) + self.cell_or_empty(cx, cy - 1) + self.cell_or_empty(cx, cy) + self.cell_or_empty(
            cx,
            cy + 1,
        ) + self.cell_or_empty(cx + 1, cy - 1) + self.cell_or_empty(cx + 1, cy) + self.cell_or_empty(
            cx + 1,
            cy + 1,
        )
    }

    /// A snapshot (copies) of every item in the 3x3 neighborhood of
    /// `pos`'s cell.
    pub fn get_all_at(&self, pos: Vec2) -> (r: Vec<T>)
        requires
            self.wf(),
        ensures
            r@ == self.neighborhood(pos),
    {
        let (cx, cy) = self.get_cell_coords(pos);
        proof {
            if pos.x >= 0 {
                vstd::arithmetic::div_mod::lemma_div_is_ordered_by_denominator(pos.x as int, 1000, self.span());
                vstd::arithmetic::div_mod::lemma_div_is_ordered(pos.x as int, i64::MAX as int, 1000);
            }
            if pos.y >= 0 {
                vstd::arithmetic::div_mod::lemma_div_is_ordered_by_denominator(pos.y as int, 1000, self.span());
                vstd::arithmetic::div_mod::lemma_div_is_ordered(pos.y as int, i64::MAX as int, 1000);
            }
        }
        let mut out: Vec<T> = Vec::new();
        self.append_cell(&mut out, cx - 1, cy - 1);
        self.append_cell(&mut out, cx - 1, cy);
        self.append_cell(&mut out, cx - 1, cy + 1);
        self.append_cell(&mut out, cx, cy - 1);
        self.append_cell(&mut out, cx, cy);
        self.append_cell(&mut out, cx, cy + 1);
        self.append_cell(&mut out, cx + 1, cy - 1);
        self.append_cell(&mut out, cx + 1, cy);
        self.append_cell(&mut out, cx + 1, cy + 1);
        out
    }

    /// A neighborhood snapshot holds at most nine cells' worth of items.
    pub proof fn lemma_neighborhood_len(self, pos: Vec2)
        requires
            self.wf(),
        ensures
            self.neighborhood(pos).len() <= 9 * MAX_MARKER_PER_CELL as int,
    {
        let cx = self.cell_x_of(pos);
        let cy = self.cell_y_of(pos);
        self.lemma_cell_or_empty_len(cx - 1, cy - 1);
        self.lemma_cell_or_empty_len(cx - 1, cy);
        self.lemma_cell_or_empty_len(cx - 1, cy + 1);
        self.lemma_cell_or_empty_len(cx, cy - 1);
        self.lemma_cell_or_empty_len(cx, cy);
        self.lemma_cell_or_empty_len(cx, cy + 1);
        self.lemma_cell_or_empty_len(cx + 1, cy - 1);
        self.lemma_cell_or_empty_len(cx + 1, cy);
        self.lemma_cell_or_empty_len(cx + 1, cy + 1);
    }

    /// Any cell-or-empty is within the occupancy cap.
    pub proof fn lemma_cell_or_empty_len(self, cx: int, cy: int)
        requires
            self.wf(),
        ensures
            self.cell_or_empty(cx, cy).len() <= MAX_MARKER_PER_CELL as int,
    {
        if self.cell_in_bounds(cx, cy) {
            self.lemma_cell_index_in_range(cx, cy);
        }
    }

    /// Neighborhood coverage, membership direction: an item sitting in the
    /// very cell the query position falls in appears in the neighborhood
    /// snapshot.
    pub proof fn lemma_neighborhood_covers_own_cell(self, pos: Vec2, item: T)
        requires
            self.wf(),
            self.cell_in_bounds(self.cell_x_of(pos), self.cell_y_of(pos)),
            self.cell_at(self.cell_x_of(pos), self.cell_y_of(pos)).contains(item),
        ensures
            self.neighborhood(pos).contains(item),
    {
        let cx = self.cell_x_of(pos);
        let cy = self.cell_y_of(pos);
        let center = self.cell_or_empty(cx, cy);
        let i = choose|i: int| 0 <= i < center.len() && center[i] == item;
        let prefix = self.cell_or_empty(cx - 1, cy - 1) + self.cell_or_empty(cx - 1, cy)
            + self.cell_or_empty(cx - 1, cy + 1) + self.cell_or_empty(cx, cy - 1);
        assert(self.neighborhood(pos)[prefix.len() + i] == item);
    }

    /// Neighborhood coverage, exclusion direction: everything in the
    /// snapshot comes from a cell at most one away from the query cell in
    /// each axis, so an item stored only in farther cells cannot appear.
    pub proof fn lemma_neighborhood_only_nearby(self, pos: Vec2, item: T)
        requires
            self.wf(),
            self.neighborhood(pos).contains(item),
        ensures
            exists|dx: int, dy: int|
                -1 <= dx <= 1 && -1 <= dy <= 1 && (#[trigger] self.cell_or_empty(
                    self.cell_x_of(pos) + dx,
                    self.cell_y_of(pos) + dy,
                )).contains(item),
    {
        let cx = self.cell_x_of(pos);
        let cy = self.cell_y_of(pos);
        let i = choose|i: int|
            0 <= i < self.neighborhood(pos).len() && self.neighborhood(pos)[i] == item;
        let c0 = self.cell_or_empty(cx - 1, cy - 1);
        let c1 = self.cell_or_empty(cx - 1, cy);
        let c2 = self.cell_or_empty(cx - 1, cy + 1);
        let c3 = self.cell_or_empty(cx, cy - 1);
        let c4 = self.cell_or_empty(cx, cy);
        let c5 = self.cell_or_empty(cx, cy + 1);
        let c6 = self.cell_or_empty(cx + 1, cy - 1);
        let c7 = self.cell_or_empty(cx + 1, cy);
        let c8 = self.cell_or_empty(cx + 1, cy + 1);
        let l0 = c0.len();
        let l1 = l0 + c1.len();
        let l2 = l1 + c2.len();
        let l3 = l2 + c3.len();
        let l4 = l3 + c4.len();
        let l5 = l4 + c5.len();
        let l6 = l5 + c6.len();
        let l7 = l6 + c7.len();
        if i < l0 {
            assert(c0[i] == item);
            assert(c0.contains(item));
            assert(self.cell_or_empty(cx + (-1), cy + (-1)) == c0);
            assert((self.cell_or_empty(self.cell_x_of(pos) + (-1), self.cell_y_of(pos) + (-1))).contains(item));
        } else if i < l1 {
            assert(c1[i - l0] == item);
            assert(c1.contains(item));
            assert(self.cell_or_empty(cx + (-1), cy + (0)) == c1);
            assert((self.cell_or_empty(self.cell_x_of(pos) + (-1), self.cell_y_of(pos) + (0))).contains(item));
        } else if i < l2 {
            assert(c2[i - l1] == item);
            assert(c2.contains(item));
            assert(self.cell_or_empty(cx + (-1), cy + (1)) == c2);
            assert((self.cell_or_empty(self.cell_x_of(pos) + (-1), self.cell_y_of(pos) + (1))).contains(item));
        } else if i < l3 {
            assert(c3[i - l2] == item);
            assert(c3.contains(item));
            assert(self.cell_or_empty(cx + (0), cy + (-1)) == c3);
            assert((self.cell_or_empty(self.cell_x_of(pos) + (0), self.cell_y_of(pos) + (-1))).contains(item));
        } else if i < l4 {
            assert(c4[i - l3] == item);
            assert(c4.contains(item));
            assert(self.cell_or_empty(cx + (0), cy + (0)) == c4);
            assert((self.cell_or_empty(self.cell_x_of(pos) + (0), self.cell_y_of(pos) + (0))).contains(item));
        } else if i < l5 {
            assert(c5[i - l4] == item);
            assert(c5.contains(item));
            assert(self.cell_or_empty(cx + (0), cy + (1)) == c5);
            assert((self.cell_or_empty(self.cell_x_of(pos) + (0), self.cell_y_of(pos) + (1))).contains(item));
        } else if i < l6 {
            assert(c6[i - l5] == item);
            assert(c6.contains(item));
            assert(self.cell_or_empty(cx + (1), cy + (-1)) == c6);
            assert((self.cell_or_empty(self.cell_x_of(pos) + (1), self.cell_y_of(pos) + (-1))).contains(item));
        } else if i < l7 {
            assert(c7[i - l6] == item);
            assert(c7.contains(item));
            assert(self.cell_or_empty(cx + (1), cy + (0)) == c7);
            assert((self.cell_or_empty(self.cell_x_of(pos) + (1), self.cell_y_of(pos) + (0))).contains(item));
        } else {
            assert(c8[i - l7] == item);
            assert(c8.contains(item));
            assert(self.cell_or_empty(cx + (1), cy + (1)) == c8);
            assert((self.cell_or_empty(self.cell_x_of(pos) + (1), self.cell_y_of(pos) + (1))).contains(item));
        }
    }

    /// A position whose cell is in bounds lies inside the covered
    /// rectangle, so in particular within [0, MAX_POS] on each axis.
    pub proof fn lemma_covered_position(self, pos: Vec2)
        requires
            self.wf(),
            self.cell_in_bounds(self.cell_x_of(pos), self.cell_y_of(pos)),
        ensures
            0 <= pos.x <= crate::MAX_POS,
            0 <= pos.y <= crate::MAX_POS,
    {
        let sp = self.span();
        let w = self.spec_width();
        let h = self.spec_height();
        assert(pos.x >= 0 && pos.y >= 0);
        if pos.x as int >= w * sp {
            vstd::arithmetic::div_mod::lemma_div_is_ordered(w * sp, pos.x as int, sp);
            vstd::arithmetic::div_mod::lemma_div_by_multiple(w, sp);
            assert(false);
        }
        if pos.y as int >= h * sp {
            vstd::arithmetic::div_mod::lemma_div_is_ordered(h * sp, pos.y as int, sp);
            vstd::arithmetic::div_mod::lemma_div_by_multiple(h, sp);
            assert(false);
        }
        assert(w * sp == (w * self.spec_cell_size()) * SCALE && h * sp == (h
            * self.spec_cell_size()) * SCALE) by (nonlinear_arith)
            requires sp == self.spec_cell_size() * SCALE,
        ;
        assert((w * self.spec_cell_size()) * SCALE <= MAX_WORLD_UNITS as int * SCALE)
            by (nonlinear_arith)
            requires w * self.spec_cell_size() <= MAX_WORLD_UNITS as int,
        ;
        assert((h * self.spec_cell_size()) * SCALE <= MAX_WORLD_UNITS as int * SCALE)
            by (nonlinear_arith)
            requires h * self.spec_cell_size() <= MAX_WORLD_UNITS as int,
        ;
    }

    /// Removes from every cell the items failing the predicate, keeping
    /// order; used for expiry sweeps. The executable predicate `f` must
    /// decide the ghost predicate `p`.
    pub fn retain<F: Fn(&T) -> bool>(&mut self, Ghost(p): Ghost<spec_fn(T) -> bool>, f: F)
        requires
            old(self).wf(),
            forall|t: T| #[trigger] f.requires((&t,)),
            forall|t: T, b: bool| #[trigger] f.ensures((&t,), b) ==> b == p(t),
        ensures
            final(self).wf(),
            final(self).same_dims(*old(self)),
            final(self).cells_view().len() == old(self).cells_view().len(),
            forall|i: int|
                0 <= i < old(self).cells_view().len() ==> (#[trigger] final(self).cells_view()[i])
                    == filtered_cell(old(self).cells_view()[i], p),
    {
        let ghost pre = *self;
        let n = self.cells.len();
        let mut i: usize = 0;
        while i < n
            invariant
                pre.wf(),
                forall|t: T| #[trigger] f.requires((&t,)),
                forall|t: T, b: bool| #[trigger] f.ensures((&t,), b) ==> b == p(t),
                self.wf(),
                self.same_dims(pre),
                i <= n,
                n as int == pre.cells_view().len(),
                self.cells_view().len() == pre.cells_view().len(),
                forall|k: int|
                    0 <= k < i as int ==> (#[trigger] self.cells_view()[k]) == filtered_cell(
                        pre.cells_view()[k],
                        p,
                    ),
                forall|k: int|
                    i as int <= k < n as int ==> (#[trigger] self.cells_view()[k])
                        == pre.cells_view()[k],
            decreases n - i,
        {
            let ghost oldcell = pre.cells_view()[i as int];
            let len_i = self.cells[i].len();
            proof {
                assert(self.cells_view()[i as int] == self.cells@[i as int]@);
                assert(len_i as int == oldcell.len());
            }
            let mut fresh: Vec<T> = Vec::new();
            let mut j: usize = 0;
            while j < len_i
                invariant
                    forall|t: T| #[trigger] f.requires((&t,)),
                    forall|t: T, b: bool| #[trigger] f.ensures((&t,), b) ==> b == p(t),
                    self.wf(),
                    i < self.cells_view().len(),
                    i < self.cells@.len(),
                    self.cells_view()[i as int] == oldcell,
                    j <= len_i,
                    len_i as int == oldcell.len(),
                    fresh@ == filtered_cell(oldcell.take(j as int), p),
                decreases len_i - j,
            {
                let item: T = self.cells[i][j];
                if f(&item) {
                    fresh.push(item);
                }
                proof {
                    assert(oldcell.take(j as int + 1).drop_last() =~= oldcell.take(j as int));
                    assert(oldcell.take(j as int + 1).last() == oldcell[j as int]);
                }
                j = j + 1;
            }
            proof {
                assert(oldcell.take(len_i as int) =~= oldcell);
                lemma_filtered_cell_len(oldcell, p);
            }
            self.set_cell(i, fresh);
            i = i + 1;
        }
    }

    /// Number of cell columns.
    pub fn width(&self) -> (r: usize)
        ensures
            r as int == self.spec_width(),
    {
        self.width
    }

    /// Number of cell rows.
    pub fn height(&self) -> (r: usize)
        ensures
            r as int == self.spec_height(),
    {
        self.height
    }

    /// Side of a cell, in world units.
    pub fn cell_size(&self) -> (r: usize)
        ensures
            r as int == self.spec_cell_size(),
    {
        self.cell_size
    }

    /// Number of cells.
    pub fn cell_count(&self) -> (r: usize)
        ensures
            r as int == self.cells_view().len(),
    {
        self.cells.len()
    }

    /// Read access to cell `i` of the cell array.
    pub fn get_cell(&self, i: usize) -> (r: &Vec<T>)
        requires
            i < self.cells_view().len(),
        ensures
            r@ == self.cells_view()[i as int],
    {
        &self.cells[i]
    }

    /// Replaces cell `i`; the new contents must respect the occupancy
    /// cap.
    pub(crate) fn set_cell(&mut self, i: usize, cell: Vec<T>)
        requires
            old(self).wf(),
            i < old(self).cells_view().len(),
            cell@.len() <= MAX_MARKER_PER_CELL,
        ensures
            final(self).wf(),
            final(self).same_dims(*old(self)),
            final(self).cells_view() == old(self).cells_view().update(i as int, cell@),
    {
        let ghost g = *self;
        self.cells[i] = cell;
        proof {
            assert(self.cells_view() =~= g.cells_view().update(i as int, cell@));
        }
    }

    /// Every stored item, cell by cell in row-major order.
    pub open spec fn all_items_seq(self) -> Seq<T> {
        flatten_cells(self.cells_view())
    }

    /// A snapshot (copies) of every stored item.
    pub fn all_items(&self) -> (r: Vec<T>)
        requires
            self.wf(),
        ensures
            r@ == self.all_items_seq(),
    {
        let mut out: Vec<T> = Vec::new();
        let n = self.cells.len();
        let mut i: usize = 0;
        while i < n
            invariant
                self.wf(),
                i <= n,
                n as int == self.cells_view().len(),
                out@ == flatten_cells(self.cells_view().take(i as int)),
            decreases n - i,
        {
            let ghost pre = out@;
            let ghost cell = self.cells_view()[i as int];
            let m = self.cells[i].len();
            let mut j: usize = 0;
            while j < m
                invariant
                    self.wf(),
                    j <= m,
                    i < self.cells_view().len(),
                    i < self.cells@.len(),
                    m as int == cell.len(),
                    cell == self.cells@[i as int]@,
                    out@ == pre + cell.take(j as int),
                decreases m - j,
            {
                out.push(self.cells[i][j]);
                proof {
                    assert(cell.take(j as int + 1) =~= cell.take(j as int).push(cell[j as int]));
                }
                j = j + 1;
            }
            proof {
                assert(cell.take(m as int) =~= cell);
                assert(self.cells_view().take(i as int + 1).drop_last() =~= self.cells_view().take(
                    i as int,
                ));
                assert(out@ == flatten_cells(self.cells_view().take(i as int + 1)));
            }
            i = i + 1;
        }
        proof {
            assert(self.cells_view().take(n as int) =~= self.cells_view());
        }
        out
    }
}

/// Concatenation of a sequence of cells, in order.
pub open spec fn flatten_cells<T>(cells: Seq<Seq<T>>) -> Seq<T>
    decreases cells.len(),
{
    if cells.len() == 0 {
        Seq::empty()
    } else {
        flatten_cells(cells.drop_last()) + cells.last()
    }
}

/// One cell's contents after dropping every item failing the predicate,
/// in their original order.
pub open spec fn filtered_cell<T>(cell: Seq<T>, p: spec_fn(T) -> bool) -> Seq<T>
    decreases cell.len(),
{
    if cell.len() == 0 {
        Seq::empty()
    } else {
        let prev = filtered_cell(cell.drop_last(), p);
        if p(cell.last()) {
            prev.push(cell.last())
        } else {
            prev
        }
    }
}

/// Filtering never grows a cell.
pub proof fn lemma_filtered_cell_len<T>(cell: Seq<T>, p: spec_fn(T) -> bool)
    ensures
        filtered_cell(cell, p).len() <= cell.len(),
    decreases cell.len(),
{
    if cell.len() > 0 {
        lemma_filtered_cell_len(cell.drop_last(), p);
    }
}

/// An item surviving a filter pass was already stored, and satisfies the
/// predicate.
pub proof fn lemma_filtered_cell_membership<T>(cell: Seq<T>, p: spec_fn(T) -> bool, t: T)
    requires
        filtered_cell(cell, p).contains(t),
    ensures
        cell.contains(t),
        p(t),
    decreases cell.len(),
{
    let prefix = cell.drop_last();
    let prev = filtered_cell(prefix, p);
    let i = choose|i: int| 0 <= i < filtered_cell(cell, p).len() && filtered_cell(cell, p)[i] == t;
    if i < prev.len() {
        if p(cell.last()) {
            assert(filtered_cell(cell, p) == prev.push(cell.last()));
            assert(filtered_cell(cell, p)[i] == prev[i]);
        } else {
            assert(filtered_cell(cell, p) == prev);
        }
        assert(prev[i] == t);
        assert(prev.contains(t));
        lemma_filtered_cell_membership(prefix, p, t);
        let k = choose|k: int| 0 <= k < prefix.len() && prefix[k] == t;
        assert(cell[k] == t);
        assert(cell.contains(t));
    } else {
        assert(t == cell.last());
        assert(cell[cell.len() - 1] == t);
        assert(cell.contains(t));
    }
}

/// One cell's contents after a sequence of attempted inserts: each item is
/// appended while the cell is below the occupancy cap and dropped
/// otherwise.
pub open spec fn cell_after_inserts<T>(cell: Seq<T>, items: Seq<T>) -> Seq<T>
    decreases items.len(),
{
    if items.len() == 0 {
        cell
    } else {
        let prev = cell_after_inserts(cell, items.drop_last());
        if prev.len() < MAX_MARKER_PER_CELL as int {
            prev.push(items.last())
        } else {
            prev
        }
    }
}

/// Bounded cell occupancy: whatever sequence of inserts is attempted on
/// one cell, its item count never exceeds the occupancy cap.
pub proof fn lemma_bounded_cell_occupancy<T>(cell: Seq<T>, items: Seq<T>)
    requires
        cell.len() <= MAX_MARKER_PER_CELL as int,
    ensures
        cell_after_inserts(cell, items).len() <= MAX_MARKER_PER_CELL as int,
    decreases items.len(),
{
    if items.len() > 0 {
        lemma_bounded_cell_occupancy(cell, items.drop_last());
    }
}

} // verus!
