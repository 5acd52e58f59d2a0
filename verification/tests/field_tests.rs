//! Tests for the spatial grid, markers, food and world field passes.

use ants::vec2::Vec2;
use ants::marker::{Marker, MarkerType};
use ants::food::Food;
use ants::grid::Grid;
use ants::world::World;
use ants::{FOOD_UNIT, MAX_MARKER_PER_CELL};

fn su(units: i64) -> i64 {
    units * 1000
}

#[test]
fn marker_decay_nonpermanent() {
    let mut m = Marker::new(Vec2::new(su(10), su(10)), MarkerType::ToFood, 10_000, false);
    m.update(2_500);
    assert_eq!(m.intensity, 7_500);
    assert_eq!(m.initial_intensity, 10_000);
}

#[test]
fn marker_permanent_intensity_unchanged() {
    let mut m = Marker::new(Vec2::new(su(10), su(10)), MarkerType::ToHome, 10_000, true);
    m.update(500_000);
    m.update(500_000);
    m.update(500_000);
    assert_eq!(m.intensity, 10_000);
}

#[test]
fn permanent_marker_survives_world_updates() {
    let mut world = World::new(400, 400);
    world.add_marker(Marker::new(Vec2::new(su(100), su(100)), MarkerType::ToHome, 10_000, true));
    world.update(5_000);
    world.update(5_000);
    world.update(5_000);
    let seen = world.sense(Vec2::new(su(100), su(100)), MarkerType::ToHome);
    assert_eq!(seen.len(), 1);
    assert_eq!(seen[0].intensity, 10_000);
}

#[test]
fn scenario_marker_decay_and_expiry() {
    // World 400x400, marker cells of 58 units; one non-permanent ToFood
    // marker of intensity 10 at (100, 100).
    let mut world = World::new(400, 400);
    world.add_marker(Marker::new(Vec2::new(su(100), su(100)), MarkerType::ToFood, 10_000, false));
    world.update(5_000);
    let seen = world.sense(Vec2::new(su(100), su(100)), MarkerType::ToFood);
    assert_eq!(seen.len(), 1);
    assert_eq!(seen[0].intensity, 5_000);
    world.update(5_100);
    let seen = world.sense(Vec2::new(su(100), su(100)), MarkerType::ToFood);
    assert_eq!(seen.len(), 0);
}

#[test]
fn scenario_food_depletion() {
    // Food at (200, 200), radius 4, quantity 2: two picks succeed, the
    // source is pruned, a third pick finds nothing.
    let mut world = World::new(400, 400);
    world.add_food(Food::new(Vec2::new(su(200), su(200)), su(4), 2 * FOOD_UNIT));
    assert!(world.pick_food(Vec2::new(su(200), su(200))));
    assert!(world.pick_food(Vec2::new(su(200), su(200))));
    let foods = world.foods();
    assert_eq!(foods.len(), 1);
    assert_eq!(foods[0].quantity, 0);
    world.update(0);
    assert_eq!(world.foods().len(), 0);
    assert!(!world.pick_food(Vec2::new(su(200), su(200))));
}

#[test]
fn pick_outside_radius_fails() {
    let mut world = World::new(400, 400);
    world.add_food(Food::new(Vec2::new(su(200), su(200)), su(1), 5 * FOOD_UNIT));
    // 2 units away, radius 1: same food cell, but outside the radius.
    assert!(!world.pick_food(Vec2::new(su(202), su(200))));
    assert!(world.pick_food(Vec2::new(su(200), su(200))));
}

#[test]
fn add_food_deposits_permanent_beacon() {
    let mut world = World::new(400, 400);
    world.add_food(Food::new(Vec2::new(su(200), su(200)), su(4), 2 * FOOD_UNIT));
    let seen = world.sense(Vec2::new(su(200), su(200)), MarkerType::ToFood);
    assert_eq!(seen.len(), 1);
    assert!(seen[0].permanent);
    assert_eq!(seen[0].marker_type, MarkerType::ToFood);
    // The beacon never decays.
    world.update(1_000_000);
    let seen = world.sense(Vec2::new(su(200), su(200)), MarkerType::ToFood);
    assert_eq!(seen.len(), 1);
    assert_eq!(seen[0].intensity, ants::FOOD_BEACON_INTENSITY);
}

#[test]
fn neighborhood_sees_own_cell_not_far_cells() {
    let mut world = World::new(400, 400);
    // Same cell as the query position.
    world.add_marker(Marker::new(Vec2::new(su(100), su(100)), MarkerType::ToFood, 10_000, false));
    // More than 1.5 marker cells (58 units) away on both axes.
    world.add_marker(Marker::new(Vec2::new(su(300), su(300)), MarkerType::ToFood, 10_000, false));
    let seen = world.sense(Vec2::new(su(100), su(100)), MarkerType::ToFood);
    assert_eq!(seen.len(), 1);
    assert_eq!(seen[0].position, Vec2::new(su(100), su(100)));
}

#[test]
fn cell_occupancy_capped() {
    let mut world = World::new(400, 400);
    for _ in 0..(MAX_MARKER_PER_CELL + 200) {
        world.add_marker(Marker::new(Vec2::new(su(100), su(100)), MarkerType::ToFood, 10_000, false));
    }
    let seen = world.sense(Vec2::new(su(100), su(100)), MarkerType::ToFood);
    assert_eq!(seen.len(), MAX_MARKER_PER_CELL);
}

#[test]
fn out_of_bounds_insert_dropped_and_query_empty() {
    let mut world = World::new(400, 400);
    world.add_marker(Marker::new(Vec2::new(-su(5), su(10)), MarkerType::ToFood, 10_000, false));
    world.add_marker(Marker::new(Vec2::new(su(5000), su(10)), MarkerType::ToFood, 10_000, false));
    assert_eq!(world.markers_of(MarkerType::ToFood).len(), 0);
    assert_eq!(world.sense(Vec2::new(-su(5), su(10)), MarkerType::ToFood).len(), 0);
}

#[test]
fn grid_geometry() {
    let grid: Grid<Marker> = Grid::new(400, 400, 58);
    // 400 / 58 = 6 cells per side.
    assert_eq!(grid.width(), 6);
    assert_eq!(grid.height(), 6);
    assert!(grid.check_bounds(5, 5));
    assert!(!grid.check_bounds(6, 0));
    assert_eq!(grid.get_index(2, 1), 8);
    assert_eq!(grid.cell_count(), 36);
    let (cx, cy) = grid.get_cell_coords(Vec2::new(su(100), su(100)));
    assert_eq!((cx, cy), (1, 1));
    let (cx, cy) = grid.get_cell_coords(Vec2::new(-su(1), su(1)));
    assert_eq!((cx, cy), (-1, 0));
}

#[test]
fn grid_add_and_query() {
    let mut grid: Grid<Marker> = Grid::new(400, 400, 58);
    let m = Marker::new(Vec2::new(su(100), su(100)), MarkerType::ToFood, 10_000, false);
    grid.add(m.position, m);
    // Neighbor cell still sees it; a far cell does not.
    assert_eq!(grid.get_all_at(Vec2::new(su(100), su(100))).len(), 1);
    assert_eq!(grid.get_all_at(Vec2::new(su(130), su(130))).len(), 1);
    assert_eq!(grid.get_all_at(Vec2::new(su(350), su(350))).len(), 0);
    assert_eq!(grid.all_items().len(), 1);
}

#[test]
fn food_unit_picks() {
    let mut f = Food::new(Vec2::new(0, 0), su(4), 3 * FOOD_UNIT);
    assert!(!f.is_empty());
    f.pick();
    assert_eq!(f.quantity, 2 * FOOD_UNIT);
    f.pick();
    f.pick();
    assert!(f.is_empty());
}

#[test]
fn world_construction_validated() {
    assert!(ants::world::World::try_new(0, 400).is_none());
    assert!(ants::world::World::try_new(400, 0).is_none());
    assert!(ants::world::World::try_new(40_000, 400).is_none());
    assert!(ants::world::World::try_new(400, 400).is_some());
}

#[test]
fn marker_expires_within_one_tick() {
    // Decay runs before pruning in the same pass, so a marker whose
    // intensity exactly equals the elapsed decay disappears immediately.
    let mut world = World::new(400, 400);
    world.add_marker(Marker::new(Vec2::new(su(100), su(100)), MarkerType::ToFood, 5_000, false));
    world.update(5_000);
    assert_eq!(world.sense(Vec2::new(su(100), su(100)), MarkerType::ToFood).len(), 0);
}
