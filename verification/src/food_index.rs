//! The food grid: proximity pick-up with per-pick depletion and a prune
//! pass for exhausted sources.

use vstd::prelude::*;
use crate::vec2::Vec2;
use crate::grid::{Grid, filtered_cell, lemma_filtered_cell_membership};
use crate::food::Food;
use crate::{MAX_WORLD_UNITS, FOOD_UNIT};

verus! {

/// Whether a pick-up at `pos` can draw from `f`: strictly inside `f`'s
/// radius and at least one whole unit left.
pub open spec fn food_hit(f: Food, pos: Vec2) -> bool {
    &&& (f.position.x - pos.x) * (f.position.x - pos.x) + (f.position.y - pos.y) * (f.position.y
        - pos.y) < f.radius * f.radius
    &&& f.pickable()
}

/// Index of the first food in the cell a pick-up at `pos` draws from, or
/// -1 when there is none.
pub open spec fn first_hit(cell: Seq<Food>, pos: Vec2) -> int
    decreases cell.len(),
{
    if cell.len() == 0 {
        -1
    } else if food_hit(cell[0], pos) {
        0
    } else {
        let r = first_hit(cell.drop_first(), pos);
        if r == -1 {
            -1
        } else {
            r + 1
        }
    }
}

/// If nothing before `j` hits and `cell[j]` hits, `j` is the first hit.
proof fn lemma_first_hit_at(cell: Seq<Food>, pos: Vec2, j: int)
    requires
        0 <= j < cell.len(),
        food_hit(cell[j], pos),
        forall|k: int| 0 <= k < j ==> !food_hit(#[trigger] cell[k], pos),
    ensures
        first_hit(cell, pos) == j,
    decreases cell.len(),
{
    if j > 0 {
        lemma_first_hit_at(cell.drop_first(), pos, j - 1);
    }
}

/// If nothing in the cell hits, there is no first hit.
proof fn lemma_first_hit_none(cell: Seq<Food>, pos: Vec2)
    requires
        forall|k: int| 0 <= k < cell.len() ==> !food_hit(#[trigger] cell[k], pos),
    ensures
        first_hit(cell, pos) == -1,
    decreases cell.len(),
{
    if cell.len() > 0 {
        lemma_first_hit_none(cell.drop_first(), pos);
    }
}

/// A food source that still holds any quantity.
pub open spec fn food_alive(f: Food) -> bool {
    f.quantity > 0
}

/// One cell's contents after a prune pass: only sources with positive
/// quantity survive, in their original order.
pub open spec fn prune_food(cell: Seq<Food>) -> Seq<Food> {
    filtered_cell(cell, |f: Food| food_alive(f))
}

/// Whether a pick-up attempt at `pos` finds food: `pos`'s own cell holds
/// a source strictly within its radius with a whole unit left.
pub open spec fn pick_finds(g: Grid<Food>, pos: Vec2) -> bool {
    let cx = g.cell_x_of(pos);
    let cy = g.cell_y_of(pos);
    &&& g.cell_in_bounds(cx, cy)
    &&& first_hit(g.cells_view()[g.cell_index(cx, cy)], pos) >= 0
}

/// The cell array after a pick-up attempt at `pos`: the first food hit
/// in `pos`'s own cell loses exactly one unit; everything else — and
/// everything on a miss — is untouched.
pub open spec fn picked_cells(g: Grid<Food>, pos: Vec2) -> Seq<Seq<Food>> {
    let cx = g.cell_x_of(pos);
    let cy = g.cell_y_of(pos);
    if g.cell_in_bounds(cx, cy) {
        let idx = g.cell_index(cx, cy);
        let cell = g.cells_view()[idx];
        let h = first_hit(cell, pos);
        if h >= 0 {
            g.cells_view().update(
                idx,
                cell.update(h, Food { quantity: (cell[h].quantity - FOOD_UNIT) as i64, ..cell[h] }),
            )
        } else {
            g.cells_view()
        }
    } else {
        g.cells_view()
    }
}

/// Every food stored in the grid is well formed and sits in the cell its
/// own position maps to.
pub open spec fn food_cell_ok(g: Grid<Food>, i: int, f: Food) -> bool {
    &&& f.wf()
    &&& g.cell_in_bounds(g.cell_x_of(f.position), g.cell_y_of(f.position))
    &&& g.cell_index(g.cell_x_of(f.position), g.cell_y_of(f.position)) == i
}

/// A grid of food sources with proximity pick-up.
pub struct FoodIndex {
    grid: Grid<Food>,
}

impl FoodIndex {
    /// The underlying grid.
    pub closed spec fn spec_grid(self) -> Grid<Food> {
        self.grid
    }

    /// Grid invariant plus per-item well-formedness and cell residency.
    pub open spec fn wf(self) -> bool {
        &&& self.spec_grid().wf()
        &&& forall|i: int, j: int|
            0 <= i < self.spec_grid().cells_view().len() && 0 <= j < (
            #[trigger] self.spec_grid().cells_view()[i]).len() ==> food_cell_ok(
                self.spec_grid(),
                i,
                #[trigger] self.spec_grid().cells_view()[i][j],
            )
    }

    /// Builds an empty index.
    pub fn new(width: usize, height: usize, cell_size: usize) -> (r: FoodIndex)
        requires
            1 <= cell_size <= MAX_WORLD_UNITS,
            width <= MAX_WORLD_UNITS,
            height <= MAX_WORLD_UNITS,
        ensures
            r.wf(),
            forall|i: int|
                0 <= i < r.spec_grid().cells_view().len() ==> (
                #[trigger] r.spec_grid().cells_view()[i]).len() == 0,
            r.spec_grid().spec_cell_size() == cell_size as int,
            r.spec_grid().spec_width() == width as int / cell_size as int,
            r.spec_grid().spec_height() == height as int / cell_size as int,
    {
        FoodIndex { grid: Grid::new(width, height, cell_size) }
    }

    /// Inserts a food source at the cell of its own position; dropped
    /// outside the grid or into a full cell.
    pub fn add(&mut self, f: Food)
        requires
            old(self).wf(),
            f.wf(),
        ensures
            final(self).wf(),
            final(self).spec_grid().same_dims(old(self).spec_grid()),
            final(self).spec_grid().cells_view() == old(self).spec_grid().spec_inserted(
                f.position,
                f,
            ),
    {
        let ghost g0 = self.grid;
        self.grid.add(f.position, f);
        proof {
            let g1 = self.grid;
            assert forall|i: int, j: int|
                0 <= i < g1.cells_view().len() && 0 <= j < (#[trigger] g1.cells_view()[i]).len()
                implies food_cell_ok(g1, i, #[trigger] g1.cells_view()[i][j]) by {
                let cx = g0.cell_x_of(f.position);
                let cy = g0.cell_y_of(f.position);
                if g0.cell_in_bounds(cx, cy) && g0.cell_at(cx, cy).len() < crate::MAX_MARKER_PER_CELL as int {
                    let idx = g0.cell_index(cx, cy);
                    g0.lemma_cell_index_in_range(cx, cy);
                    if i == idx {
                        if j < g0.cells_view()[i].len() {
                            assert(g1.cells_view()[i][j] == g0.cells_view()[i][j]);
                            assert(food_cell_ok(g0, i, g0.cells_view()[i][j]));
                        } else {
                            assert(g1.cells_view()[i][j] == f);
                        }
                    } else {
                        assert(g1.cells_view()[i] == g0.cells_view()[i]);
                        assert(food_cell_ok(g0, i, g0.cells_view()[i][j]));
                    }
                } else {
                    assert(g1.cells_view()[i] == g0.cells_view()[i]);
                    assert(food_cell_ok(g0, i, g0.cells_view()[i][j]));
                }
            }
        }
    }

    /// Attempts a pick-up at `pos`: the first food in `pos`'s own cell
    /// that lies strictly within its radius and still holds a whole unit
    /// loses exactly one unit, and the call reports whether that
    /// happened. Positions outside the grid simply find nothing.
    pub fn pick(&mut self, pos: Vec2) -> (r: bool)
        requires
            old(self).wf(),
        ensures
            final(self).wf(),
            final(self).spec_grid().same_dims(old(self).spec_grid()),
            r == pick_finds(old(self).spec_grid(), pos),
            final(self).spec_grid().cells_view() == picked_cells(old(self).spec_grid(), pos),
    {
        let ghost g0 = self.grid;
        let (cx, cy) = self.grid.get_cell_coords(pos);
        if !(0 <= cx && cx < self.grid_width_i64() && 0 <= cy && cy < self.grid_height_i64()) {
            return false;
        }
        let idx = self.grid.get_index(cx as usize, cy as usize);
        proof {
            self.grid.lemma_covered_position(pos);
        }
        let ghost cell = g0.cells_view()[idx as int];
        let n = self.grid.get_cell(idx).len();
        let mut j: usize = 0;
        while j < n
            invariant
                self.wf(),
                self.grid == g0,
                g0 == old(self).spec_grid(),
                idx < g0.cells_view().len(),
                n as int == cell.len(),
                cell == g0.cells_view()[idx as int],
                g0.cell_in_bounds(g0.cell_x_of(pos), g0.cell_y_of(pos)),
                idx as int == g0.cell_index(g0.cell_x_of(pos), g0.cell_y_of(pos)),
                0 <= pos.x <= crate::MAX_POS,
                0 <= pos.y <= crate::MAX_POS,
                j <= n,
                forall|k: int| 0 <= k < j as int ==> !food_hit(#[trigger] cell[k], pos),
            decreases n - j,
        {
            let f: Food = self.grid.get_cell(idx)[j];
            proof {
                assert(food_cell_ok(g0, idx as int, cell[j as int]));
                g0.lemma_covered_position(f.position);
            }
            let dx = f.position.x - pos.x;
            let dy = f.position.y - pos.y;
            proof {
                assert(dx * dx <= 32_768_000i64 * 32_768_000i64 && dx * dx >= 0) by (nonlinear_arith)
                    requires -32_768_000 <= dx <= 32_768_000,
                ;
                assert(dy * dy <= 32_768_000i64 * 32_768_000i64 && dy * dy >= 0) by (nonlinear_arith)
                    requires -32_768_000 <= dy <= 32_768_000,
                ;
                assert(f.radius * f.radius <= 1_000_000_000i64 * 1_000_000_000i64
                    && f.radius * f.radius >= 0) by (nonlinear_arith)
                    requires 0 <= f.radius <= 1_000_000_000,
                ;
            }
            if dx * dx + dy * dy < f.radius * f.radius && f.quantity >= FOOD_UNIT {
                let mut picked = f;
                picked.pick();
                let ghost newcell = cell.update(j as int, picked);
                let mut fresh: Vec<Food> = Vec::new();
                let mut k: usize = 0;
                while k < n
                    invariant
                        self.grid == g0,
                        g0 == old(self).spec_grid(),
                        idx < g0.cells_view().len(),
                        n as int == cell.len(),
                        cell == g0.cells_view()[idx as int],
                        j < n,
                        k <= n,
                        newcell == cell.update(j as int, picked),
                        fresh@ == newcell.take(k as int),
                    decreases n - k,
                {
                    if k == j {
                        fresh.push(picked);
                    } else {
                        let item: Food = self.grid.get_cell(idx)[k];
                        fresh.push(item);
                    }
                    proof {
                        assert(newcell.take(k as int + 1) =~= newcell.take(k as int).push(
                            newcell[k as int],
                        ));
                    }
                    k = k + 1;
                }
                proof {
                    assert(newcell.take(n as int) =~= newcell);
                    assert(g0.wf());
                }
                let ghost gpre = self.grid;
                self.grid.set_cell(idx, fresh);
                proof {
                    lemma_first_hit_at(cell, pos, j as int);
                    let g1 = self.grid;
                    assert forall|i2: int, j2: int|
                        0 <= i2 < g1.cells_view().len() && 0 <= j2 < (
                        #[trigger] g1.cells_view()[i2]).len() implies food_cell_ok(
                        g1,
                        i2,
                        #[trigger] g1.cells_view()[i2][j2],
                    ) by {
                        if i2 == idx as int {
                            if j2 == j as int {
                                assert(g1.cells_view()[i2][j2] == picked);
                                assert(food_cell_ok(g0, i2, cell[j as int]));
                                assert(picked.position == cell[j as int].position);
                            } else {
                                assert(g1.cells_view()[i2][j2] == cell[j2]);
                                assert(food_cell_ok(g0, i2, cell[j2]));
                            }
                        } else {
                            assert(g1.cells_view()[i2] == g0.cells_view()[i2]);
                            assert(food_cell_ok(g0, i2, g0.cells_view()[i2][j2]));
                        }
                    }
                    assert(first_hit(cell, pos) == j as int);
                    assert(picked == (Food {
                        quantity: (cell[j as int].quantity - FOOD_UNIT) as i64,
                        ..cell[j as int]
                    }));
                    assert(self.grid.cells_view() == g0.cells_view().update(
                        idx as int,
                        cell.update(j as int, picked),
                    ));
                }
                return true;
            }
            j = j + 1;
        }
        proof {
            lemma_first_hit_none(cell, pos);
        }
        false
    }

    /// Removes every food source whose quantity has reached zero: each
    /// cell becomes exactly `prune_food` of its old contents.
    pub fn prune(&mut self)
        requires
            old(self).wf(),
        ensures
            final(self).wf(),
            final(self).spec_grid().same_dims(old(self).spec_grid()),
            final(self).spec_grid().cells_view().len() == old(self).spec_grid().cells_view().len(),
            forall|i: int|
                0 <= i < old(self).spec_grid().cells_view().len() ==> (
                #[trigger] final(self).spec_grid().cells_view()[i]) == prune_food(
                    old(self).spec_grid().cells_view()[i],
                ),
    {
        let ghost pre = self.grid;
        let ghost pred = (|f: Food| food_alive(f));
        self.grid.retain(
            Ghost(pred),
            (|food: &Food| -> (keep: bool)
                ensures
                    keep == food_alive(*food),
                {
                    food.quantity > 0
                }),
        );
        proof {
            let gf = self.grid;
            assert forall|i2: int, j2: int|
                0 <= i2 < gf.cells_view().len() && 0 <= j2 < (#[trigger] gf.cells_view()[i2]).len()
                implies food_cell_ok(gf, i2, #[trigger] gf.cells_view()[i2][j2]) by {
                let m = gf.cells_view()[i2][j2];
                assert(gf.cells_view()[i2].contains(m));
                assert(gf.cells_view()[i2] == filtered_cell(pre.cells_view()[i2], pred));
                lemma_filtered_cell_membership(pre.cells_view()[i2], pred, m);
                let k = choose|k: int|
                    0 <= k < pre.cells_view()[i2].len() && pre.cells_view()[i2][k] == m;
                assert(food_cell_ok(pre, i2, pre.cells_view()[i2][k]));
                assert(pre.same_dims(gf));
            }
        }
    }

    /// Number of cell columns, as an `i64`.
    fn grid_width_i64(&self) -> (r: i64)
        requires
            self.spec_grid().wf(),
        ensures
            r == self.spec_grid().spec_width(),
    {
        self.grid.width() as i64
    }

    /// Number of cell rows, as an `i64`.
    fn grid_height_i64(&self) -> (r: i64)
        requires
            self.spec_grid().wf(),
        ensures
            r == self.spec_grid().spec_height(),
    {
        self.grid.height() as i64
    }

    /// A snapshot of every stored food source.
    pub fn all(&self) -> (r: Vec<Food>)
        requires
            self.wf(),
        ensures
            r@ == crate::grid::flatten_cells(self.spec_grid().cells_view()),
    {
        self.grid.all_items()
    }
}

} // verus!
