//! The dual-channel decaying pheromone field.
//!
//! Two independent marker grids, one per channel. `deposit` inserts into
//! the grid matching the marker's channel, `sense` reads a 3x3
//! neighborhood snapshot, and `tick` first decays every non-permanent
//! marker and then prunes everything whose intensity has reached zero —
//! in that order, every call.

use vstd::prelude::*;
use crate::vec2::Vec2;
use crate::grid::Grid;
use crate::marker::{Marker, MarkerType};
use crate::{MAX_WORLD_UNITS, MAX_POS, MAX_DT, MAX_MARKER_PER_CELL};

verus! {

/// One cell's contents after a decay-then-prune pass: every marker is
/// decayed by `dt`, and only those still at positive intensity survive,
/// in their original order.
pub open spec fn decay_prune(cell: Seq<Marker>, dt: int) -> Seq<Marker>
    decreases cell.len(),
{
    if cell.len() == 0 {
        Seq::empty()
    } else {
        let prev = decay_prune(cell.drop_last(), dt);
        let m = cell.last().spec_decayed(dt);
        if m.intensity > 0 {
            prev.push(m)
        } else {
            prev
        }
    }
}

/// Decay-then-prune never grows a cell.
pub proof fn lemma_decay_prune_len(cell: Seq<Marker>, dt: int)
    ensures
        decay_prune(cell, dt).len() <= cell.len(),
    decreases cell.len(),
{
    if cell.len() > 0 {
        lemma_decay_prune_len(cell.drop_last(), dt);
    }
}

/// Intensity monotonicity, both directions: a marker whose decayed
/// intensity stays positive survives the pass exactly as its decayed
/// self, and everything that survives the pass is the decayed image of a
/// stored marker and has positive intensity — so a marker whose intensity
/// has reached zero is absent from every later query.
pub proof fn lemma_decay_prune_membership(cell: Seq<Marker>, dt: int)
    ensures
        forall|k: int|
            0 <= k < cell.len() && (#[trigger] cell[k]).spec_decayed(dt).intensity > 0
                ==> decay_prune(cell, dt).contains(cell[k].spec_decayed(dt)),
        forall|m: Marker|
            decay_prune(cell, dt).contains(m) ==> m.intensity > 0 && exists|k: int|
                0 <= k < cell.len() && m == (#[trigger] cell[k]).spec_decayed(dt),
    decreases cell.len(),
{
    if cell.len() > 0 {
        let prefix = cell.drop_last();
        lemma_decay_prune_membership(prefix, dt);
        let last = cell.last();
        let prev = decay_prune(prefix, dt);
        assert forall|k: int|
            0 <= k < cell.len() && (#[trigger] cell[k]).spec_decayed(dt).intensity > 0
            implies decay_prune(cell, dt).contains(cell[k].spec_decayed(dt)) by {
            if k < cell.len() - 1 {
                assert(prefix[k] == cell[k]);
                assert(prev.contains(cell[k].spec_decayed(dt)));
                let i = choose|i: int| 0 <= i < prev.len() && prev[i] == cell[k].spec_decayed(dt);
                assert(decay_prune(cell, dt)[i] == cell[k].spec_decayed(dt));
            } else {
                assert(decay_prune(cell, dt).last() == last.spec_decayed(dt));
            }
        }
        assert forall|m: Marker| decay_prune(cell, dt).contains(m) implies m.intensity > 0
            && exists|k: int| 0 <= k < cell.len() && m == (#[trigger] cell[k]).spec_decayed(dt) by {
            let i = choose|i: int|
                0 <= i < decay_prune(cell, dt).len() && decay_prune(cell, dt)[i] == m;
            if i < prev.len() {
                assert(prev[i] == m);
                assert(prev.contains(m));
                let k = choose|k: int| 0 <= k < prefix.len() && m == prefix[k].spec_decayed(dt);
                assert(cell[k] == prefix[k]);
                assert(m == cell[k].spec_decayed(dt));
            } else {
                assert(m == last.spec_decayed(dt));
                assert(m == cell[cell.len() - 1].spec_decayed(dt));
            }
        }
    }
}

/// A permanent marker with positive intensity survives a decay-then-prune
/// pass unchanged, intensity included.
pub proof fn lemma_permanent_survives_pass(cell: Seq<Marker>, dt: int, k: int)
    requires
        0 <= k < cell.len(),
        cell[k].permanent,
        cell[k].intensity > 0,
    ensures
        decay_prune(cell, dt).contains(cell[k]),
{
    lemma_decay_prune_membership(cell, dt);
    assert(cell[k].spec_decayed(dt) == cell[k]);
}

/// A marker after a whole sequence of decay passes.
pub open spec fn decayed_many(m: Marker, dts: Seq<int>) -> Marker
    decreases dts.len(),
{
    if dts.len() == 0 {
        m
    } else {
        decayed_many(m, dts.drop_last()).spec_decayed(dts.last())
    }
}

/// Permanent invariance: a permanent marker is unchanged — intensity
/// included — by any number of decay passes.
pub proof fn lemma_permanent_invariance(m: Marker, dts: Seq<int>)
    requires
        m.permanent,
    ensures
        decayed_many(m, dts) == m,
    decreases dts.len(),
{
    if dts.len() > 0 {
        lemma_permanent_invariance(m, dts.drop_last());
    }
}

/// Every marker stored in a channel grid is well formed, carries that
/// grid's channel, and sits in the cell its own position maps to.
pub open spec fn marker_cell_ok(g: Grid<Marker>, c: MarkerType, i: int, m: Marker) -> bool {
    &&& m.wf()
    &&& m.marker_type == c
    &&& g.cell_in_bounds(g.cell_x_of(m.position), g.cell_y_of(m.position))
    &&& g.cell_index(g.cell_x_of(m.position), g.cell_y_of(m.position)) == i
}

/// Channel-grid invariant.
pub open spec fn grid_ok(g: Grid<Marker>, c: MarkerType) -> bool {
    &&& g.wf()
    &&& forall|i: int, j: int|
        0 <= i < g.cells_view().len() && 0 <= j < (#[trigger] g.cells_view()[i]).len()
            ==> marker_cell_ok(g, c, i, #[trigger] g.cells_view()[i][j])
}

/// Everything a neighborhood query of a channel grid returns is a well
/// formed marker of that channel whose position lies in the covered
/// rectangle.
pub proof fn lemma_neighborhood_markers_ok(g: Grid<Marker>, c: MarkerType, pos: Vec2)
    requires
        grid_ok(g, c),
    ensures
        forall|k: int|
            0 <= k < g.neighborhood(pos).len() ==> {
                let m = #[trigger] g.neighborhood(pos)[k];
                &&& m.wf()
                &&& m.marker_type == c
                &&& 0 <= m.position.x <= MAX_POS
                &&& 0 <= m.position.y <= MAX_POS
            },
{
    let ns = g.neighborhood(pos);
    assert forall|k: int| 0 <= k < ns.len() implies {
        let m = #[trigger] ns[k];
        &&& m.wf()
        &&& m.marker_type == c
        &&& 0 <= m.position.x <= MAX_POS
        &&& 0 <= m.position.y <= MAX_POS
    } by {
        let m = ns[k];
        assert(ns.contains(m));
        g.lemma_neighborhood_only_nearby(pos, m);
        let (dx, dy): (int, int) = choose|dx: int, dy: int|
            -1 <= dx <= 1 && -1 <= dy <= 1 && (#[trigger] g.cell_or_empty(
                g.cell_x_of(pos) + dx,
                g.cell_y_of(pos) + dy,
            )).contains(m);
        let cx = g.cell_x_of(pos) + dx;
        let cy = g.cell_y_of(pos) + dy;
        let cell = g.cell_or_empty(cx, cy);
        assert(cell.len() > 0);
        assert(g.cell_in_bounds(cx, cy));
        g.lemma_cell_index_in_range(cx, cy);
        let idx = g.cell_index(cx, cy);
        let j = choose|j: int| 0 <= j < cell.len() && cell[j] == m;
        assert(g.cells_view()[idx][j] == m);
        assert(marker_cell_ok(g, c, idx, m));
        g.lemma_covered_position(m.position);
    }
}

/// The dual-channel pheromone field.
pub struct PheromoneField {
    to_food: Grid<Marker>,
    to_home: Grid<Marker>,
}

impl PheromoneField {
    /// The grid of one channel.
    pub closed spec fn grid_of(self, c: MarkerType) -> Grid<Marker> {
        match c {
            MarkerType::ToFood => self.to_food,
            MarkerType::ToHome => self.to_home,
        }
    }

    /// Both channel grids satisfy the channel-grid invariant and share
    /// one geometry.
    pub open spec fn wf(self) -> bool {
        &&& grid_ok(self.grid_of(MarkerType::ToFood), MarkerType::ToFood)
        &&& grid_ok(self.grid_of(MarkerType::ToHome), MarkerType::ToHome)
        &&& self.grid_of(MarkerType::ToFood).same_dims(self.grid_of(MarkerType::ToHome))
    }

    /// Builds an empty field over a `width` x `height` world with square
    /// cells of `cell_size` units.
    pub fn new(width: usize, height: usize, cell_size: usize) -> (r: PheromoneField)
        requires
            1 <= cell_size <= MAX_WORLD_UNITS,
            width <= MAX_WORLD_UNITS,
            height <= MAX_WORLD_UNITS,
        ensures
            r.wf(),
            forall|c: MarkerType, i: int|
                0 <= i < r.grid_of(c).cells_view().len()
                    ==> (#[trigger] r.grid_of(c).cells_view()[i]).len() == 0,
            r.grid_of(MarkerType::ToFood).spec_cell_size() == cell_size as int,
            r.grid_of(MarkerType::ToFood).spec_width() == width as int / cell_size as int,
            r.grid_of(MarkerType::ToFood).spec_height() == height as int / cell_size as int,
    {
        PheromoneField {
            to_food: Grid::new(width, height, cell_size),
            to_home: Grid::new(width, height, cell_size),
        }
    }

    /// Inserts `m` into the grid of `m`'s channel; the other grid is
    /// untouched.
    pub fn deposit(&mut self, m: Marker)
        requires
            old(self).wf(),
            m.wf(),
        ensures
            final(self).wf(),
            final(self).grid_of(m.marker_type).cells_view() == old(self).grid_of(
                m.marker_type,
            ).spec_inserted(m.position, m),
            final(self).grid_of(m.marker_type.spec_opposite()) == old(self).grid_of(
                m.marker_type.spec_opposite(),
            ),
            forall|c: MarkerType| (#[trigger] final(self).grid_of(c)).same_dims(old(self).grid_of(c)),
    {
        let ghost pre = *self;
        match m.marker_type {
            MarkerType::ToFood => self.to_food.add(m.position, m),
            MarkerType::ToHome => self.to_home.add(m.position, m),
        }
        proof {
            let c = m.marker_type;
            let g0 = pre.grid_of(c);
            let g1 = self.grid_of(c);
            assert forall|i: int, j: int|
                0 <= i < g1.cells_view().len() && 0 <= j < (#[trigger] g1.cells_view()[i]).len()
                implies marker_cell_ok(g1, c, i, #[trigger] g1.cells_view()[i][j]) by {
                let cx = g0.cell_x_of(m.position);
                let cy = g0.cell_y_of(m.position);
                if g0.cell_in_bounds(cx, cy) && g0.cell_at(cx, cy).len() < MAX_MARKER_PER_CELL as int {
                    let idx = g0.cell_index(cx, cy);
                    g0.lemma_cell_index_in_range(cx, cy);
                    if i == idx {
                        if j < g0.cells_view()[i].len() {
                            assert(g1.cells_view()[i][j] == g0.cells_view()[i][j]);
                            assert(marker_cell_ok(g0, c, i, g0.cells_view()[i][j]));
                        } else {
                            assert(g1.cells_view()[i][j] == m);
                        }
                    } else {
                        assert(g1.cells_view()[i] == g0.cells_view()[i]);
                        assert(marker_cell_ok(g0, c, i, g0.cells_view()[i][j]));
                    }
                } else {
                    assert(g1.cells_view()[i] == g0.cells_view()[i]);
                    assert(marker_cell_ok(g0, c, i, g0.cells_view()[i][j]));
                }
            }
        }
    }

    /// A neighborhood snapshot of the grid of channel `c` around `pos`.
    pub fn sense(&self, pos: Vec2, c: MarkerType) -> (r: Vec<Marker>)
        requires
            self.wf(),
        ensures
            r@ == self.grid_of(c).neighborhood(pos),
    {
        match c {
            MarkerType::ToFood => self.to_food.get_all_at(pos),
            MarkerType::ToHome => self.to_home.get_all_at(pos),
        }
    }

    /// Read access to the grid of one channel.
    pub fn grid_ref(&self, c: MarkerType) -> (r: &Grid<Marker>)
        ensures
            *r == self.grid_of(c),
    {
        match c {
            MarkerType::ToFood => &self.to_food,
            MarkerType::ToHome => &self.to_home,
        }
    }

    /// Decays every marker of both grids by `dt` milliseconds, then
    /// prunes everything whose intensity has reached zero — in that
    /// order, so a cell's new contents are exactly `decay_prune` of its
    /// old contents.
    pub fn tick(&mut self, dt: i64)
        requires
            old(self).wf(),
            0 <= dt <= MAX_DT,
        ensures
            final(self).wf(),
            forall|c: MarkerType| (#[trigger] final(self).grid_of(c)).same_dims(old(self).grid_of(c)),
            forall|c: MarkerType, i: int|
                0 <= i < old(self).grid_of(c).cells_view().len()
                    ==> (#[trigger] final(self).grid_of(c).cells_view()[i]) == decay_prune(
                    old(self).grid_of(c).cells_view()[i],
                    dt as int,
                ),
            forall|c: MarkerType|
                (#[trigger] final(self).grid_of(c)).cells_view().len() == old(self).grid_of(
                    c,
                ).cells_view().len(),
    {
        tick_grid(&mut self.to_food, dt, Ghost(MarkerType::ToFood));
        tick_grid(&mut self.to_home, dt, Ghost(MarkerType::ToHome));
    }
}

/// Decay-then-prune over every cell of one channel grid.
fn tick_grid(g: &mut Grid<Marker>, dt: i64, Ghost(chan): Ghost<MarkerType>)
    requires
        grid_ok(*old(g), chan),
        0 <= dt <= MAX_DT,
    ensures
        final(g).same_dims(*old(g)),
        final(g).cells_view().len() == old(g).cells_view().len(),
        forall|i: int|
            0 <= i < old(g).cells_view().len() ==> (#[trigger] final(g).cells_view()[i])
                == decay_prune(old(g).cells_view()[i], dt as int),
        grid_ok(*final(g), chan),
{
    let ghost pre = *g;
    let n = g.cell_count();
    let mut i: usize = 0;
    while i < n
        invariant
            grid_ok(pre, chan),
            0 <= dt <= MAX_DT,
            g.wf(),
            g.same_dims(pre),
            i <= n,
            n as int == pre.cells_view().len(),
            g.cells_view().len() == pre.cells_view().len(),
            forall|k: int|
                0 <= k < i as int ==> (#[trigger] g.cells_view()[k]) == decay_prune(
                    pre.cells_view()[k],
                    dt as int,
                ),
            forall|k: int|
                i as int <= k < n as int ==> (#[trigger] g.cells_view()[k]) == pre.cells_view()[k],
        decreases n - i,
    {
        let ghost oldcell = pre.cells_view()[i as int];
        let len_i = g.get_cell(i).len();
        let mut fresh: Vec<Marker> = Vec::new();
        let mut j: usize = 0;
        while j < len_i
            invariant
                grid_ok(pre, chan),
                0 <= dt <= MAX_DT,
                g.wf(),
                i < g.cells_view().len(),
                g.cells_view().len() == pre.cells_view().len(),
                g.cells_view()[i as int] == oldcell,
                oldcell == pre.cells_view()[i as int],
                j <= len_i,
                len_i as int == oldcell.len(),
                fresh@ == decay_prune(oldcell.take(j as int), dt as int),
            decreases len_i - j,
        {
            let mut mk: Marker = *&g.get_cell(i)[j];
            proof {
                assert(marker_cell_ok(pre, chan, i as int, oldcell[j as int]));
            }
            mk.update(dt);
            if mk.intensity > 0 {
                fresh.push(mk);
            }
            proof {
                assert(oldcell.take(j as int + 1).drop_last() =~= oldcell.take(j as int));
                assert(oldcell.take(j as int + 1).last() == oldcell[j as int]);
            }
            j = j + 1;
        }
        proof {
            assert(oldcell.take(len_i as int) =~= oldcell);
            lemma_decay_prune_len(oldcell, dt as int);
        }
        g.set_cell(i, fresh);
        i = i + 1;
    }
    proof {
        let gf = *g;
        assert forall|i2: int, j2: int|
            0 <= i2 < gf.cells_view().len() && 0 <= j2 < (#[trigger] gf.cells_view()[i2]).len()
            implies marker_cell_ok(gf, chan, i2, #[trigger] gf.cells_view()[i2][j2]) by {
            let m = gf.cells_view()[i2][j2];
            lemma_decay_prune_membership(pre.cells_view()[i2], dt as int);
            assert(gf.cells_view()[i2].contains(m));
            let k = choose|k: int|
                0 <= k < pre.cells_view()[i2].len() && m == pre.cells_view()[i2][k].spec_decayed(
                    dt as int,
                );
            assert(marker_cell_ok(pre, chan, i2, pre.cells_view()[i2][k]));
        }
    }
}

} // verus!
