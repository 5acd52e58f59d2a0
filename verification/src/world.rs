//! The world: the dual-channel pheromone field and the food index, with
//! the per-frame decay/prune pass and the accessors agents use.

use vstd::prelude::*;
use crate::vec2::Vec2;
use crate::grid::Grid;
use crate::marker::{Marker, MarkerType};
use crate::food::Food;
use crate::pheromone::{PheromoneField, decay_prune};
use crate::food_index::{FoodIndex, prune_food, pick_finds, picked_cells};
use crate::{MAX_WORLD_UNITS, MAX_DT, SCALE, FOOD_BEACON_INTENSITY};

verus! {

/// Cell side, in world units, of the two marker grids: larger than the
/// detection radius, so one 3x3 neighborhood query covers the whole
/// detection circle.
pub const MARKER_CELL_SIZE: usize = 58;

/// Cell side, in world units, of the food grid: food is a spatially
/// precise point resource and is queried single-cell.
pub const FOOD_CELL_SIZE: usize = 5;

/// The simulation world.
pub struct World {
    width: usize,
    height: usize,
    pheromone: PheromoneField,
    food: FoodIndex,
}

impl World {
    /// World width, in whole units.
    pub closed spec fn spec_width(self) -> int {
        self.width as int
    }

    /// World height, in whole units.
    pub closed spec fn spec_height(self) -> int {
        self.height as int
    }

    /// The pheromone field.
    pub closed spec fn spec_pheromone(self) -> PheromoneField {
        self.pheromone
    }

    /// The food index.
    pub closed spec fn spec_food(self) -> FoodIndex {
        self.food
    }

    /// Positive, bounded dimensions and well-formed components.
    pub open spec fn wf(self) -> bool {
        &&& 1 <= self.spec_width() <= MAX_WORLD_UNITS as int
        &&& 1 <= self.spec_height() <= MAX_WORLD_UNITS as int
        &&& self.spec_pheromone().wf()
        &&& self.spec_food().wf()
    }

    /// Geometry and dimensions unchanged between two worlds.
    pub open spec fn same_config(self, other: World) -> bool {
        &&& self.spec_width() == other.spec_width()
        &&& self.spec_height() == other.spec_height()
        &&& forall|c: MarkerType|
            (#[trigger] self.spec_pheromone().grid_of(c)).same_dims(
                other.spec_pheromone().grid_of(c),
            )
        &&& self.spec_food().spec_grid().same_dims(other.spec_food().spec_grid())
    }

    /// Builds an empty world; dimensions must be positive and bounded.
    pub fn new(width: usize, height: usize) -> (r: World)
        requires
            1 <= width <= MAX_WORLD_UNITS,
            1 <= height <= MAX_WORLD_UNITS,
        ensures
            r.wf(),
            r.spec_width() == width as int,
            r.spec_height() == height as int,
            forall|c: MarkerType, i: int|
                0 <= i < r.spec_pheromone().grid_of(c).cells_view().len()
                    ==> (#[trigger] r.spec_pheromone().grid_of(c).cells_view()[i]).len() == 0,
            forall|i: int|
                0 <= i < r.spec_food().spec_grid().cells_view().len()
                    ==> (#[trigger] r.spec_food().spec_grid().cells_view()[i]).len() == 0,
            forall|c: MarkerType| {
                let g = #[trigger] r.spec_pheromone().grid_of(c);
                &&& g.spec_cell_size() == MARKER_CELL_SIZE as int
                &&& g.spec_width() == width as int / MARKER_CELL_SIZE as int
                &&& g.spec_height() == height as int / MARKER_CELL_SIZE as int
            },
            r.spec_food().spec_grid().spec_cell_size() == FOOD_CELL_SIZE as int,
            r.spec_food().spec_grid().spec_width() == width as int / FOOD_CELL_SIZE as int,
            r.spec_food().spec_grid().spec_height() == height as int / FOOD_CELL_SIZE as int,
    {
        World {
            width,
            height,
            pheromone: PheromoneField::new(width, height, MARKER_CELL_SIZE),
            food: FoodIndex::new(width, height, FOOD_CELL_SIZE),
        }
    }

    /// Validated construction: a world with non-positive or oversized
    /// dimensions is a configuration error and is rejected before the
    /// simulation starts.
    pub fn try_new(width: usize, height: usize) -> (r: Option<World>)
        ensures
            (1 <= width <= MAX_WORLD_UNITS && 1 <= height <= MAX_WORLD_UNITS) <==> r is Some,
            r is Some ==> {
                let w = r->0;
                &&& w.wf()
                &&& w.spec_width() == width as int
                &&& w.spec_height() == height as int
                &&& forall|c: MarkerType| {
                    let g = #[trigger] w.spec_pheromone().grid_of(c);
                    &&& g.spec_cell_size() == MARKER_CELL_SIZE as int
                    &&& g.spec_width() == width as int / MARKER_CELL_SIZE as int
                    &&& g.spec_height() == height as int / MARKER_CELL_SIZE as int
                }
                &&& w.spec_food().spec_grid().spec_cell_size() == FOOD_CELL_SIZE as int
                &&& w.spec_food().spec_grid().spec_width() == width as int / FOOD_CELL_SIZE as int
                &&& w.spec_food().spec_grid().spec_height() == height as int / FOOD_CELL_SIZE as int
                &&& forall|c: MarkerType, i: int|
                    0 <= i < w.spec_pheromone().grid_of(c).cells_view().len()
                        ==> (#[trigger] w.spec_pheromone().grid_of(c).cells_view()[i]).len() == 0
                &&& forall|i: int|
                    0 <= i < w.spec_food().spec_grid().cells_view().len()
                        ==> (#[trigger] w.spec_food().spec_grid().cells_view()[i]).len() == 0
            },
    {
        if 1 <= width && width <= MAX_WORLD_UNITS && 1 <= height && height <= MAX_WORLD_UNITS {
            Some(World::new(width, height))
        } else {
            None
        }
    }

    /// World width, in position sub-units.
    pub fn width_su(&self) -> (r: i64)
        requires
            self.wf(),
        ensures
            r == self.spec_width() * SCALE,
            0 < r <= crate::MAX_POS,
    {
        (self.width as i64) * SCALE
    }

    /// World height, in position sub-units.
    pub fn height_su(&self) -> (r: i64)
        requires
            self.wf(),
        ensures
            r == self.spec_height() * SCALE,
            0 < r <= crate::MAX_POS,
    {
        (self.height as i64) * SCALE
    }

    /// Read access to the marker grid of one channel.
    pub fn get_grid(&self, marker_type: MarkerType) -> (r: &Grid<Marker>)
        ensures
            *r == self.spec_pheromone().grid_of(marker_type),
    {
        self.pheromone.grid_ref(marker_type)
    }

    /// Inserts `marker` into the grid of its own channel; the other
    /// channel and the food grid are untouched.
    pub fn add_marker(&mut self, marker: Marker)
        requires
            old(self).wf(),
            marker.wf(),
        ensures
            final(self).wf(),
            final(self).same_config(*old(self)),
            final(self).spec_pheromone().grid_of(marker.marker_type).cells_view() == old(
                self,
            ).spec_pheromone().grid_of(marker.marker_type).spec_inserted(marker.position, marker),
            final(self).spec_pheromone().grid_of(marker.marker_type.spec_opposite()) == old(
                self,
            ).spec_pheromone().grid_of(marker.marker_type.spec_opposite()),
            final(self).spec_food() == old(self).spec_food(),
    {
        self.pheromone.deposit(marker);
    }

    /// Adds a food source and immediately deposits a large permanent
    /// ToFood beacon at its position, so the source is discoverable from
    /// a distance before any trail exists.
    pub fn add_food(&mut self, food: Food)
        requires
            old(self).wf(),
            food.wf(),
        ensures
            final(self).wf(),
            final(self).same_config(*old(self)),
            final(self).spec_food().spec_grid().cells_view() == old(
                self,
            ).spec_food().spec_grid().spec_inserted(food.position, food),
            final(self).spec_pheromone().grid_of(MarkerType::ToFood).cells_view() == old(
                self,
            ).spec_pheromone().grid_of(MarkerType::ToFood).spec_inserted(
                food.position,
                Marker {
                    position: food.position,
                    marker_type: MarkerType::ToFood,
                    intensity: FOOD_BEACON_INTENSITY,
                    initial_intensity: FOOD_BEACON_INTENSITY,
                    permanent: true,
                },
            ),
            final(self).spec_pheromone().grid_of(MarkerType::ToHome) == old(
                self,
            ).spec_pheromone().grid_of(MarkerType::ToHome),
    {
        self.food.add(food);
        let beacon = Marker::new(food.position, MarkerType::ToFood, FOOD_BEACON_INTENSITY, true);
        self.pheromone.deposit(beacon);
    }

    /// Whether a pick-up attempt at `pos` would find food: `pos`'s own
    /// food cell holds a source strictly within its radius with a whole
    /// unit left.
    pub open spec fn pick_hits(self, pos: Vec2) -> bool {
        pick_finds(self.spec_food().spec_grid(), pos)
    }

    /// Attempts a food pick-up at `pos` (see `FoodIndex::pick`); the
    /// pheromone field is untouched.
    pub fn pick_food(&mut self, pos: Vec2) -> (r: bool)
        requires
            old(self).wf(),
        ensures
            final(self).wf(),
            final(self).same_config(*old(self)),
            final(self).spec_pheromone() == old(self).spec_pheromone(),
            r == old(self).pick_hits(pos),
            final(self).spec_food().spec_grid().cells_view() == picked_cells(
                old(self).spec_food().spec_grid(),
                pos,
            ),
    {
        self.food.pick(pos)
    }

    /// The per-frame field pass: every marker of both channels decays by
    /// `dt` and expired markers are pruned (decay-then-prune, see
    /// `PheromoneField::tick`), and exhausted food sources are removed.
    pub fn update(&mut self, dt: i64)
        requires
            old(self).wf(),
            0 <= dt <= MAX_DT,
        ensures
            final(self).wf(),
            final(self).same_config(*old(self)),
            forall|c: MarkerType, i: int|
                0 <= i < old(self).spec_pheromone().grid_of(c).cells_view().len()
                    ==> (#[trigger] final(self).spec_pheromone().grid_of(c).cells_view()[i])
                    == decay_prune(old(self).spec_pheromone().grid_of(c).cells_view()[i], dt as int),
            forall|i: int|
                0 <= i < old(self).spec_food().spec_grid().cells_view().len()
                    ==> (#[trigger] final(self).spec_food().spec_grid().cells_view()[i])
                    == prune_food(old(self).spec_food().spec_grid().cells_view()[i]),
            forall|c: MarkerType|
                (#[trigger] final(self).spec_pheromone().grid_of(c)).cells_view().len() == old(
                    self,
                ).spec_pheromone().grid_of(c).cells_view().len(),
            final(self).spec_food().spec_grid().cells_view().len() == old(
                self,
            ).spec_food().spec_grid().cells_view().len(),
    {
        self.pheromone.tick(dt);
        self.food.prune();
    }

    /// A snapshot of every live marker of one channel, for rendering.
    pub fn markers_of(&self, c: MarkerType) -> (r: Vec<Marker>)
        requires
            self.wf(),
        ensures
            r@ == crate::grid::flatten_cells(self.spec_pheromone().grid_of(c).cells_view()),
    {
        self.pheromone.grid_ref(c).all_items()
    }

    /// A snapshot of every live food source, for rendering.
    pub fn foods(&self) -> (r: Vec<Food>)
        requires
            self.wf(),
        ensures
            r@ == crate::grid::flatten_cells(self.spec_food().spec_grid().cells_view()),
    {
        self.food.all()
    }

    /// A neighborhood snapshot of channel `c` around `pos`, for sensing.
    pub fn sense(&self, pos: Vec2, c: MarkerType) -> (r: Vec<Marker>)
        requires
            self.wf(),
        ensures
            r@ == self.spec_pheromone().grid_of(c).neighborhood(pos),
    {
        self.pheromone.sense(pos, c)
    }
}

} // verus!
