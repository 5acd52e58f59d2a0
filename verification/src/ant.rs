//! Agent steering and behaviour.
//!
//! An agent owns a position, a smoothed-steering direction, a foraging
//! phase and a resource reserve. Each frame it moves, senses the marker
//! grid matching its phase, deposits into the opposite grid on its own
//! timer, and transitions phase on food pickup or colony arrival.

use vstd::prelude::*;
use crate::vec2::Vec2;
use crate::marker::{Marker, MarkerType};
use crate::rng::SimRng;
use crate::world::World;
use crate::trig::{
    div_trunc, div_trunc_i64, norm_angle, wrap_angle, atan2_units, atan2_units_spec, unit_vec_spec,
    unit_vec_of, lemma_unit_vec_norm,
};
use crate::{
    FULL_TURN, HALF_TURN, TRIG_SCALE, UNITS_PER_RADIAN, MAX_DT, MAX_POS, MOVE_SPEED,
    MARKER_DETECTION_RADIUS, ROTATION_SPEED, COLONY_RADIUS, MAX_RESERVE, DEPOSIT_THRESHOLD,
    DIRECTION_UPDATE_PERIOD, MARKER_PERIOD, DIRECTION_NOISE, MAX_INTENSITY,
};

verus! {

/// The Q16 facing vector of a normalised angle; its squared length
/// never exceeds TRIG_SCALE * TRIG_SCALE (see `trig::unit_vec_spec`).
pub open spec fn unit_vec(a: int) -> Vec2 {
    unit_vec_spec(a)
}

/// Smoothed steering state: a current heading and a target heading, each
/// an angle in binary units with its cached Q16 direction vector. The
/// vectors are recomputed projections of the angles, never set on their
/// own.
#[derive(Clone, Copy, PartialEq, Eq, Structural, Debug)]
pub struct Direction {
    pub angle: i64,
    pub target_angle: i64,
    pub rotation_speed: i64,
    pub vec: Vec2,
    pub target_vec: Vec2,
}

impl Direction {
    /// Angles normalised, gain bounded, vectors in sync with the angles.
    pub open spec fn wf(self) -> bool {
        &&& 0 <= self.angle < FULL_TURN
        &&& 0 <= self.target_angle < FULL_TURN
        &&& 0 <= self.rotation_speed <= 1000
        &&& self.vec == unit_vec(self.angle as int)
        &&& self.target_vec == unit_vec(self.target_angle as int)
    }

    /// Builds a steering state facing `angle`.
    pub fn new(angle: i64, rotation_speed: i64) -> (r: Direction)
        requires
            0 <= angle < FULL_TURN,
            0 <= rotation_speed <= 1000,
        ensures
            r.wf(),
            r.angle == angle,
            r.target_angle == angle,
            r.rotation_speed == rotation_speed,
    {
        let v = unit_vec_of(angle);
        Direction { angle, target_angle: angle, rotation_speed, vec: v, target_vec: v }
    }

    /// Recomputes the facing vector from the current angle.
    fn update_vec(&mut self)
        requires
            0 <= old(self).angle < FULL_TURN,
        ensures
            *final(self) == (Direction { vec: unit_vec(old(self).angle as int), ..*old(self) }),
    {
        self.vec = unit_vec_of(self.angle);
    }

    /// Recomputes the target vector from the target angle.
    fn update_target_vec(&mut self)
        requires
            0 <= old(self).target_angle < FULL_TURN,
        ensures
            *final(self) == (Direction {
                target_vec: unit_vec(old(self).target_angle as int),
                ..*old(self)
            }),
    {
        self.target_vec = unit_vec_of(self.target_angle);
    }

    /// The state after an immediate turn: target and current angle snap
    /// together to the old target shifted by `delta`.
    pub open spec fn spec_add_now(self, delta: int) -> Direction {
        let t = norm_angle(self.target_angle + delta);
        Direction {
            angle: t as i64,
            target_angle: t as i64,
            vec: unit_vec(t),
            target_vec: unit_vec(t),
            ..self
        }
    }

    /// Turns immediately: shifts the target angle by `delta` and snaps
    /// the current angle to it.
    pub fn add_now(&mut self, delta: i64)
        requires
            old(self).wf(),
            -FULL_TURN <= delta <= FULL_TURN,
        ensures
            *final(self) == old(self).spec_add_now(delta as int),
            final(self).wf(),
    {
        let t = wrap_angle(self.target_angle + delta);
        self.target_angle = t;
        self.update_target_vec();
        self.angle = t;
        self.update_vec();
    }

    /// The state after shifting only the target angle by `delta`.
    pub open spec fn spec_offset_target(self, delta: int) -> Direction {
        let t = norm_angle(self.target_angle + delta);
        Direction { target_angle: t as i64, target_vec: unit_vec(t), ..self }
    }

    /// Shifts the target angle by `delta` (steering noise); the current
    /// heading is untouched and drifts there over later frames.
    pub fn offset_target(&mut self, delta: i64)
        requires
            old(self).wf(),
            -FULL_TURN <= delta <= FULL_TURN,
        ensures
            *final(self) == old(self).spec_offset_target(delta as int),
            final(self).wf(),
    {
        let t = wrap_angle(self.target_angle + delta);
        self.target_angle = t;
        self.update_target_vec();
    }

    /// Points the target at a normalised angle.
    pub fn set_target(&mut self, t: i64)
        requires
            old(self).wf(),
            0 <= t < FULL_TURN,
        ensures
            *final(self) == (Direction {
                target_angle: t,
                target_vec: unit_vec(t as int),
                ..*old(self)
            }),
            final(self).wf(),
    {
        self.target_angle = t;
        self.update_target_vec();
    }

    /// The bounded turn the integration step makes in `dt` milliseconds:
    /// the signed alignment of the target vector with the facing
    /// vector's perpendicular, scaled by the gain and the timestep, and
    /// clamped to the maximum turn rate — the heading can never swing
    /// faster than `rotation_speed` allows, however sharp the gradient.
    pub open spec fn steer_delta(self, dt: int) -> int {
        let raw = div_trunc(
            self.rotation_speed * (self.target_vec.x * (-self.vec.y) + self.target_vec.y
                * self.vec.x) * dt * UNITS_PER_RADIAN,
            4_294_967_296_000int,
        );
        let b = self.rotation_speed * dt * UNITS_PER_RADIAN / 1000;
        if raw > b {
            b
        } else if raw < -b {
            -b
        } else {
            raw
        }
    }

    /// The state after one integration step.
    pub open spec fn spec_steer(self, dt: int) -> Direction {
        let a = norm_angle(self.angle + self.steer_delta(dt));
        Direction { angle: a as i64, vec: unit_vec(a), ..self }
    }

    /// Advances the current heading toward the target by at most
    /// `rotation_speed` worth of turn: smooth, bounded turning instead of
    /// snapping.
    pub fn update(&mut self, dt: i64)
        requires
            old(self).wf(),
            0 <= dt <= MAX_DT,
        ensures
            *final(self) == old(self).spec_steer(dt as int),
            final(self).wf(),
            ({
                let b = old(self).rotation_speed * dt * UNITS_PER_RADIAN / 1000;
                &&& 0 <= b
                &&& -b <= old(self).steer_delta(dt as int) <= b
            }),
    {
        proof {
            lemma_unit_vec_norm(self.angle as int);
            lemma_unit_vec_norm(self.target_angle as int);
            vstd::arithmetic::div_mod::lemma_div_pos_is_pos(
                self.rotation_speed as int * dt as int * UNITS_PER_RADIAN,
                1000,
            );
            assert(0 <= self.rotation_speed as int * dt as int * UNITS_PER_RADIAN)
                by (nonlinear_arith)
                requires 0 <= self.rotation_speed, 0 <= dt,
            ;
        }
        let tx = self.target_vec.x;
        let ty = self.target_vec.y;
        let vx = self.vec.x;
        let vy = self.vec.y;
        proof {
            assert(-4_294_967_296i64 <= tx * (-vy) <= 4_294_967_296i64) by (nonlinear_arith)
                requires -65536 <= tx <= 65536, -65536 <= vy <= 65536,
            ;
            assert(-4_294_967_296i64 <= ty * vx <= 4_294_967_296i64) by (nonlinear_arith)
                requires -65536 <= ty <= 65536, -65536 <= vx <= 65536,
            ;
        }
        let cross: i64 = tx * (-vy) + ty * vx;
        let ghost rsi: int = self.rotation_speed as int;
        let ghost ci: int = cross as int;
        let ghost dti: int = dt as int;
        proof {
            assert(-8_589_934_592_000 <= rsi * ci <= 8_589_934_592_000) by (nonlinear_arith)
                requires 0 <= rsi <= 1000, -8_589_934_592 <= ci <= 8_589_934_592,
            ;
            assert(-8_589_934_592_000_000_000_000 <= (rsi * ci) * dti
                <= 8_589_934_592_000_000_000_000) by (nonlinear_arith)
                requires
                    -8_589_934_592_000 <= rsi * ci <= 8_589_934_592_000,
                    0 <= dti <= 1_000_000,
            ;
            assert(-100_000_000_000_000_000_000_000_000 <= ((rsi * ci) * dti) * 10430
                <= 100_000_000_000_000_000_000_000_000) by (nonlinear_arith)
                requires
                    -8_589_934_592_000_000_000_000 <= (rsi * ci) * dti
                        <= 8_589_934_592_000_000_000_000,
            ;
        }
        let n1: i128 = (self.rotation_speed as i128) * (cross as i128);
        proof {
            assert(n1 == rsi * ci);
        }
        let n2: i128 = n1 * (dt as i128);
        proof {
            assert(n2 == (rsi * ci) * dti);
        }
        let num: i128 = n2 * (UNITS_PER_RADIAN as i128);
        proof {
            assert(num == ((rsi * ci) * dti) * 10430);
        }
        let den: i128 = 4_294_967_296_000;
        let q: i128 = if num >= 0 {
            num / den
        } else {
            -((-num) / den)
        };
        proof {
            if num >= 0 {
                vstd::arithmetic::div_mod::lemma_div_pos_is_pos(num as int, den as int);
                vstd::arithmetic::div_mod::lemma_div_is_ordered(
                    num as int,
                    100_000_000_000_000_000_000_000_000,
                    den as int,
                );
            } else {
                vstd::arithmetic::div_mod::lemma_div_pos_is_pos(-(num as int), den as int);
                vstd::arithmetic::div_mod::lemma_div_is_ordered(
                    -(num as int),
                    100_000_000_000_000_000_000_000_000,
                    den as int,
                );
            }
            assert(100_000_000_000_000_000_000_000_000int / 4_294_967_296_000int
                < 100_000_000_000_000_000int);
        }
        let raw: i64 = q as i64;
        proof {
            assert(self.rotation_speed * dt <= 1_000_000_000) by (nonlinear_arith)
                requires 0 <= self.rotation_speed <= 1000, 0 <= dt <= 1_000_000,
            ;
        }
        let bound: i64 = self.rotation_speed * dt * UNITS_PER_RADIAN / 1000;
        let delta: i64 = if raw > bound {
            bound
        } else if raw < -bound {
            -bound
        } else {
            raw
        };
        proof {
            assert(delta == self.steer_delta(dt as int));
            assert(-100_000_000_000_000_000 <= self.angle + delta <= 100_000_000_000_000_000);
        }
        let a = wrap_angle(self.angle + delta);
        self.angle = a;
        self.update_vec();
    }
}

/// A foraging agent.
#[derive(Clone, Copy, PartialEq, Eq, Structural, Debug)]
pub struct Ant {
    pub position: Vec2,
    pub direction: Direction,
    pub last_direction_update: i64,
    pub last_marker: i64,
    pub phase: MarkerType,
    pub reserve: i64,
}

impl Ant {
    /// Position inside the coordinate range, steering state in sync,
    /// timers within their periods, reserve within [0, MAX_RESERVE].
    pub open spec fn wf(self) -> bool {
        &&& 0 <= self.position.x <= MAX_POS
        &&& 0 <= self.position.y <= MAX_POS
        &&& self.direction.wf()
        &&& 0 <= self.last_direction_update <= DIRECTION_UPDATE_PERIOD
        &&& 0 <= self.last_marker <= MARKER_PERIOD
        &&& 0 <= self.reserve <= MAX_RESERVE
    }

    /// Builds an agent at `position` facing `rotation`, in the ToFood
    /// phase with a full reserve; the behaviour timers start at random
    /// phase offsets so deposits and sensing do not burst in lockstep
    /// across a population.
    pub fn new(position: Vec2, rotation: i64, rng: &mut SimRng) -> (r: Ant)
        requires
            0 <= position.x <= MAX_POS,
            0 <= position.y <= MAX_POS,
            0 <= rotation < FULL_TURN,
            old(rng).wf(),
        ensures
            r.wf(),
            final(rng).wf(),
            r.position == position,
            r.phase == MarkerType::ToFood,
            r.reserve == MAX_RESERVE,
            r.direction.angle == rotation,
            r.direction.target_angle == rotation,
            r.direction.rotation_speed == ROTATION_SPEED,
            0 <= r.last_direction_update < DIRECTION_UPDATE_PERIOD,
            0 <= r.last_marker < MARKER_PERIOD,
    {
        let jitter_dir = rng.gen_range(0, DIRECTION_UPDATE_PERIOD);
        let jitter_mark = rng.gen_range(0, MARKER_PERIOD);
        Ant {
            position,
            direction: Direction::new(rotation, ROTATION_SPEED),
            last_direction_update: jitter_dir,
            last_marker: jitter_mark,
            phase: MarkerType::ToFood,
            reserve: MAX_RESERVE,
        }
    }

    /// Where unclamped movement would put the agent after `dt`
    /// milliseconds at `MOVE_SPEED` along its facing vector.
    pub open spec fn moved_pos(self, dt: int) -> Vec2 {
        Vec2 {
            x: (self.position.x + div_trunc(
                dt * MOVE_SPEED * self.direction.vec.x,
                TRIG_SCALE as int,
            )) as i64,
            y: (self.position.y + div_trunc(
                dt * MOVE_SPEED * self.direction.vec.y,
                TRIG_SCALE as int,
            )) as i64,
        }
    }

    /// The agent after one movement step with hard boundary bounce: a
    /// coordinate pushed past a world edge is clamped exactly to that
    /// edge and the heading reverses by a half turn, once per violated
    /// axis, target and current angle snapping together.
    pub open spec fn spec_update_position(self, dt: int, w_su: int, h_su: int) -> Ant {
        let m = self.moved_pos(dt);
        let x_out = m.x < 0 || m.x > w_su;
        let y_out = m.y < 0 || m.y > h_su;
        let px: int = if m.x < 0 { 0 } else if m.x > w_su { w_su } else { m.x as int };
        let py: int = if m.y < 0 { 0 } else if m.y > h_su { h_su } else { m.y as int };
        let d1 = if x_out { self.direction.spec_add_now(HALF_TURN as int) } else { self.direction };
        let d2 = if y_out { d1.spec_add_now(HALF_TURN as int) } else { d1 };
        Ant { position: Vec2 { x: px as i64, y: py as i64 }, direction: d2, ..self }
    }

    /// Moves the agent, clamping and reflecting at the world edges.
    pub fn update_position(&mut self, dt: i64, w_su: i64, h_su: i64)
        requires
            old(self).wf(),
            0 <= dt <= MAX_DT,
            0 < w_su <= MAX_POS,
            0 < h_su <= MAX_POS,
        ensures
            *final(self) == old(self).spec_update_position(dt as int, w_su as int, h_su as int),
            final(self).wf(),
            final(self).position.x <= w_su,
            final(self).position.y <= h_su,
            // The unclamped step is never longer than dt * MOVE_SPEED.
            ({
                let m = old(self).moved_pos(dt as int);
                let sx = m.x - old(self).position.x;
                let sy = m.y - old(self).position.y;
                sx * sx + sy * sy <= (dt * MOVE_SPEED) * (dt * MOVE_SPEED)
            }),
            // Clamping toward an edge only shortens it: an agent starting
            // inside the world also ends the frame within that bound.
            old(self).position.x <= w_su && old(self).position.y <= h_su ==> ({
                let fx = final(self).position.x - old(self).position.x;
                let fy = final(self).position.y - old(self).position.y;
                fx * fx + fy * fy <= (dt * MOVE_SPEED) * (dt * MOVE_SPEED)
            }),
    {
        proof {
            lemma_unit_vec_norm(self.direction.angle as int);
        }
        let vx = self.direction.vec.x;
        let vy = self.direction.vec.y;
        let scaled = dt * MOVE_SPEED;
        proof {
            assert(-3_276_800_000_000i64 <= scaled * vx <= 3_276_800_000_000i64)
                by (nonlinear_arith)
                requires 0 <= scaled <= 50_000_000, -65536 <= vx <= 65536,
            ;
            assert(-3_276_800_000_000i64 <= scaled * vy <= 3_276_800_000_000i64)
                by (nonlinear_arith)
                requires 0 <= scaled <= 50_000_000, -65536 <= vy <= 65536,
            ;
            crate::trig::lemma_div_trunc_bounds(
                scaled as int * vx as int,
                TRIG_SCALE as int,
                3_276_800_000_000,
            );
            crate::trig::lemma_div_trunc_bounds(
                scaled as int * vy as int,
                TRIG_SCALE as int,
                3_276_800_000_000,
            );
        }
        let dx = div_trunc_i64(scaled * vx, TRIG_SCALE);
        let dy = div_trunc_i64(scaled * vy, TRIG_SCALE);
        proof {
            crate::trig::lemma_scaled_step_bound(scaled as int, vx as int, vy as int);
            assert(0 <= (scaled as int) * (scaled as int) <= 2_500_000_000_000_000int)
                by (nonlinear_arith)
                requires 0 <= scaled <= 50_000_000,
            ;
        }
        let nx = self.position.x + dx;
        let ny = self.position.y + dy;
        let mut x_out = false;
        let mut y_out = false;
        let px: i64 = if nx < 0 {
            x_out = true;
            0
        } else if nx > w_su {
            x_out = true;
            w_su
        } else {
            nx
        };
        let py: i64 = if ny < 0 {
            y_out = true;
            0
        } else if ny > h_su {
            y_out = true;
            h_su
        } else {
            ny
        };
        proof {
            if old(self).position.x <= w_su && old(self).position.y <= h_su {
                let p = old(self).position;
                assert((px as int - p.x) * (px as int - p.x) <= (dx as int) * (dx as int)
                    && (py as int - p.y) * (py as int - p.y) <= (dy as int) * (dy as int))
                    by (nonlinear_arith)
                    requires
                        0 <= p.x <= w_su,
                        0 <= p.y <= h_su,
                        px == if nx < 0 { 0 } else if nx > w_su { w_su } else { nx },
                        py == if ny < 0 { 0 } else if ny > h_su { h_su } else { ny },
                        nx == p.x + dx,
                        ny == p.y + dy,
                ;
            }
        }
        self.position = Vec2 { x: px, y: py };
        if x_out {
            self.direction.add_now(HALF_TURN);
        }
        if y_out {
            self.direction.add_now(HALF_TURN);
        }
    }

    /// Whether the agent stands within the arrival radius of the colony.
    pub open spec fn near_colony(self, cp: Vec2) -> bool {
        (self.position.x - cp.x) * (self.position.x - cp.x) + (self.position.y - cp.y) * (
        self.position.y - cp.y) < COLONY_RADIUS * COLONY_RADIUS
    }

    /// The agent after the colony-arrival check: within the arrival
    /// radius the reserve refills; an arriving ToHome agent flips to
    /// ToFood and reverses heading.
    pub open spec fn spec_check_colony(self, cp: Vec2) -> Ant {
        if self.near_colony(cp) {
            match self.phase {
                MarkerType::ToHome => Ant {
                    phase: MarkerType::ToFood,
                    reserve: MAX_RESERVE,
                    direction: self.direction.spec_add_now(HALF_TURN as int),
                    ..self
                },
                MarkerType::ToFood => Ant { reserve: MAX_RESERVE, ..self },
            }
        } else {
            self
        }
    }

    /// Runs the colony-arrival check against the colony position.
    pub fn check_colony(&mut self, colony_position: Vec2)
        requires
            old(self).wf(),
            0 <= colony_position.x <= MAX_POS,
            0 <= colony_position.y <= MAX_POS,
        ensures
            *final(self) == old(self).spec_check_colony(colony_position),
            final(self).wf(),
    {
        let dx = self.position.x - colony_position.x;
        let dy = self.position.y - colony_position.y;
        proof {
            assert(0 <= dx * dx <= 32_768_000i64 * 32_768_000i64 && 0 <= dy * dy
                <= 32_768_000i64 * 32_768_000i64) by (nonlinear_arith)
                requires -32_768_000 <= dx <= 32_768_000, -32_768_000 <= dy <= 32_768_000,
            ;
        }
        if dx * dx + dy * dy < COLONY_RADIUS * COLONY_RADIUS {
            match self.phase {
                MarkerType::ToHome => {
                    self.direction.add_now(HALF_TURN);
                    self.phase = MarkerType::ToFood;
                },
                MarkerType::ToFood => {},
            }
            self.reserve = MAX_RESERVE;
        }
    }
}

/// Whether a marker is sensed during a direction update: strictly within
/// the detection radius and ahead of the facing vector (positive dot
/// product) — agents never steer toward trails behind them.
pub open spec fn senses(m: Marker, pos: Vec2, dir: Vec2) -> bool {
    let dx = m.position.x - pos.x;
    let dy = m.position.y - pos.y;
    &&& dx * dx + dy * dy < MARKER_DETECTION_RADIUS * MARKER_DETECTION_RADIUS
    &&& dx * dir.x + dy * dir.y > 0
}

/// Total intensity of the sensed markers.
pub open spec fn sensed_total(ms: Seq<Marker>, pos: Vec2, dir: Vec2) -> int
    decreases ms.len(),
{
    if ms.len() == 0 {
        0
    } else {
        sensed_total(ms.drop_last(), pos, dir) + if senses(ms.last(), pos, dir) {
            ms.last().intensity as int
        } else {
            0
        }
    }
}

/// Intensity-weighted sum of the sensed markers' x coordinates.
pub open spec fn sensed_wx(ms: Seq<Marker>, pos: Vec2, dir: Vec2) -> int
    decreases ms.len(),
{
    if ms.len() == 0 {
        0
    } else {
        sensed_wx(ms.drop_last(), pos, dir) + if senses(ms.last(), pos, dir) {
            ms.last().position.x * ms.last().intensity
        } else {
            0
        }
    }
}

/// Intensity-weighted sum of the sensed markers' y coordinates.
pub open spec fn sensed_wy(ms: Seq<Marker>, pos: Vec2, dir: Vec2) -> int
    decreases ms.len(),
{
    if ms.len() == 0 {
        0
    } else {
        sensed_wy(ms.drop_last(), pos, dir) + if senses(ms.last(), pos, dir) {
            ms.last().position.y * ms.last().intensity
        } else {
            0
        }
    }
}

/// Either the grid is untouched, or it gained exactly one deposit: a
/// non-permanent marker of the channel opposite to the agent's phase,
/// at the agent's position.
pub open spec fn grid_gained_deposit(
    oldg: crate::grid::Grid<Marker>,
    newg: crate::grid::Grid<Marker>,
    a: Ant,
) -> bool {
    ||| newg == oldg
    ||| exists|m: Marker|
        m.marker_type == a.phase.spec_opposite() && !m.permanent && m.position == a.position
            && newg.cells_view() == #[trigger] oldg.spec_inserted(m.position, m)
}

impl Ant {
    /// The agent after one direction update over the snapshot `ms`: when
    /// the sensed total intensity is positive and the intensity-weighted
    /// centroid differs from the agent's position, the target angle
    /// points at the centroid (two-argument arctangent of the offset);
    /// otherwise nothing changes. The current heading is never snapped
    /// here — it drifts toward the target through the integration step.
    pub open spec fn spec_find_target(self, ms: Seq<Marker>) -> Ant {
        let t = sensed_total(ms, self.position, self.direction.vec);
        if t > 0 {
            let cx = sensed_wx(ms, self.position, self.direction.vec) / t;
            let cy = sensed_wy(ms, self.position, self.direction.vec) / t;
            let dx = cx - self.position.x;
            let dy = cy - self.position.y;
            if dx == 0 && dy == 0 {
                self
            } else {
                let ta = norm_angle(atan2_units_spec(dy, dx));
                Ant {
                    direction: Direction {
                        target_angle: ta as i64,
                        target_vec: unit_vec(ta),
                        ..self.direction
                    },
                    ..self
                }
            }
        } else {
            self
        }
    }

    /// One direction update: senses the marker grid matching the current
    /// phase around the agent and points the target angle at the
    /// intensity-weighted centroid of the markers ahead, if any.
    pub fn find_marker(&mut self, world: &World)
        requires
            old(self).wf(),
            world.wf(),
        ensures
            *final(self) == old(self).spec_find_target(
                world.spec_pheromone().grid_of(old(self).phase).neighborhood(old(self).position),
            ),
            final(self).wf(),
    {
        let ghost g = world.spec_pheromone().grid_of(self.phase);
        let ghost ms = g.neighborhood(self.position);
        proof {
            crate::pheromone::lemma_neighborhood_markers_ok(g, self.phase, self.position);
            g.lemma_neighborhood_len(self.position);
            lemma_unit_vec_norm(self.direction.angle as int);
        }
        let markers = world.sense(self.position, self.phase);
        let dirx = self.direction.vec.x;
        let diry = self.direction.vec.y;
        let px = self.position.x;
        let py = self.position.y;
        let n = markers.len();
        let mut total: i64 = 0;
        let mut wx: i64 = 0;
        let mut wy: i64 = 0;
        let mut i: usize = 0;
        while i < n
            invariant
                markers@ == ms,
                n as int == ms.len(),
                ms.len() <= 9216,
                i <= n,
                px == self.position.x,
                py == self.position.y,
                0 <= px <= MAX_POS,
                0 <= py <= MAX_POS,
                dirx == self.direction.vec.x,
                diry == self.direction.vec.y,
                -65536 <= dirx <= 65536,
                -65536 <= diry <= 65536,
                forall|k: int|
                    0 <= k < ms.len() ==> {
                        let m = #[trigger] ms[k];
                        &&& m.wf()
                        &&& 0 <= m.position.x <= MAX_POS
                        &&& 0 <= m.position.y <= MAX_POS
                    },
                total == sensed_total(ms.take(i as int), self.position, self.direction.vec),
                wx == sensed_wx(ms.take(i as int), self.position, self.direction.vec),
                wy == sensed_wy(ms.take(i as int), self.position, self.direction.vec),
                0 <= total <= i as int * MAX_INTENSITY,
                0 <= wx <= MAX_POS * total,
                0 <= wy <= MAX_POS * total,
            decreases n - i,
        {
            let m = markers[i];
            let dx = m.position.x - px;
            let dy = m.position.y - py;
            proof {
                assert(0 <= dx * dx <= 32_768_000i64 * 32_768_000i64 && 0 <= dy * dy
                    <= 32_768_000i64 * 32_768_000i64) by (nonlinear_arith)
                    requires -32_768_000 <= dx <= 32_768_000, -32_768_000 <= dy <= 32_768_000,
                ;
                assert(-2_147_483_648_000_000i64 <= dx * dirx <= 2_147_483_648_000_000i64
                    && -2_147_483_648_000_000i64 <= dy * diry <= 2_147_483_648_000_000i64)
                    by (nonlinear_arith)
                    requires
                        -32_768_000 <= dx <= 32_768_000,
                        -32_768_000 <= dy <= 32_768_000,
                        -65536 <= dirx <= 65536,
                        -65536 <= diry <= 65536,
                ;
            }
            let dist2 = dx * dx + dy * dy;
            let dot = dx * dirx + dy * diry;
            let ghost pre_total = total;
            let ghost pre_wx = wx;
            let ghost pre_wy = wy;
            if dist2 < MARKER_DETECTION_RADIUS * MARKER_DETECTION_RADIUS && dot > 0 {
                proof {
                    assert(total + m.intensity <= (i as int + 1) * MAX_INTENSITY) by (nonlinear_arith)
                        requires
                            total <= i as int * MAX_INTENSITY,
                            m.intensity <= MAX_INTENSITY,
                            i as int >= 0,
                    ;
                    assert(0 <= m.position.x * m.intensity <= MAX_POS * m.intensity
                        && 0 <= m.position.y * m.intensity <= MAX_POS * m.intensity)
                        by (nonlinear_arith)
                        requires
                            0 <= m.position.x <= MAX_POS,
                            0 <= m.position.y <= MAX_POS,
                            0 <= m.intensity,
                    ;
                    assert(wx + m.position.x * m.intensity <= MAX_POS * (total + m.intensity)
                        && wy + m.position.y * m.intensity <= MAX_POS * (total + m.intensity))
                        by (nonlinear_arith)
                        requires
                            wx <= MAX_POS * total,
                            wy <= MAX_POS * total,
                            0 <= m.position.x * m.intensity <= MAX_POS * m.intensity,
                            0 <= m.position.y * m.intensity <= MAX_POS * m.intensity,
                    ;
                    assert(MAX_POS * (total + m.intensity) <= MAX_POS * (9216 * MAX_INTENSITY))
                        by (nonlinear_arith)
                        requires total + m.intensity <= 9216 * MAX_INTENSITY,
                    ;
                }
                total = total + m.intensity;
                wx = wx + m.position.x * m.intensity;
                wy = wy + m.position.y * m.intensity;
            } else {
                proof {
                    assert(i as int * MAX_INTENSITY <= (i as int + 1) * MAX_INTENSITY)
                        by (nonlinear_arith)
                        requires i as int >= 0,
                    ;
                }
            }
            proof {
                let pre = ms.take(i as int);
                let cur = ms.take(i as int + 1);
                assert(cur.drop_last() =~= pre);
                assert(cur.last() == ms[i as int]);
                assert(senses(ms[i as int], self.position, self.direction.vec) == (
                dist2 < MARKER_DETECTION_RADIUS * MARKER_DETECTION_RADIUS && dot > 0));
            }
            i = i + 1;
        }
        proof {
            assert(ms.take(n as int) =~= ms);
        }
        if total > 0 {
            proof {
                vstd::arithmetic::div_mod::lemma_div_pos_is_pos(wx as int, total as int);
                vstd::arithmetic::div_mod::lemma_div_pos_is_pos(wy as int, total as int);
                vstd::arithmetic::div_mod::lemma_div_is_ordered(
                    wx as int,
                    MAX_POS * total,
                    total as int,
                );
                vstd::arithmetic::div_mod::lemma_div_is_ordered(
                    wy as int,
                    MAX_POS * total,
                    total as int,
                );
                vstd::arithmetic::div_mod::lemma_div_by_multiple(MAX_POS as int, total as int);
            }
            let cx = wx / total;
            let cy = wy / total;
            let dx = cx - px;
            let dy = cy - py;
            if !(dx == 0 && dy == 0) {
                let ta = atan2_units(dy, dx);
                let taw = wrap_angle(ta);
                self.direction.set_target(taw);
            }
        }
    }

    /// When in the ToFood phase: attempts a pick-up at the current
    /// position; on success the agent flips to ToHome, refills its
    /// reserve and reverses heading.
    pub fn check_food(&mut self, world: &mut World)
        requires
            old(self).wf(),
            old(world).wf(),
        ensures
            final(self).wf(),
            final(world).wf(),
            final(world).same_config(*old(world)),
            final(world).spec_pheromone() == old(world).spec_pheromone(),
            final(world).spec_food().spec_grid().cells_view()
                == crate::food_index::picked_cells(
                old(world).spec_food().spec_grid(),
                old(self).position,
            ),
            old(world).pick_hits(old(self).position) ==> *final(self) == (Ant {
                phase: MarkerType::ToHome,
                reserve: MAX_RESERVE,
                direction: old(self).direction.spec_add_now(HALF_TURN as int),
                ..*old(self)
            }),
            !old(world).pick_hits(old(self).position) ==> *final(self) == *old(self),
    {
        let got = world.pick_food(self.position);
        if got {
            self.phase = MarkerType::ToHome;
            self.reserve = MAX_RESERVE;
            self.direction.add_now(HALF_TURN);
        }
    }

    /// When the reserve is above the deposit threshold: deposits a
    /// marker of the channel opposite to the current phase at the
    /// current position, with intensity proportional to the reserve, and
    /// decays the reserve multiplicatively; always rearms the deposit
    /// timer. The grid of the agent's own phase is never touched.
    pub fn add_marker(&mut self, world: &mut World)
        requires
            old(self).wf(),
            old(world).wf(),
        ensures
            final(self).wf(),
            final(world).wf(),
            final(world).same_config(*old(world)),
            final(world).spec_food() == old(world).spec_food(),
            final(self).last_marker == 0,
            *final(self) == (Ant {
                last_marker: 0,
                reserve: final(self).reserve,
                ..*old(self)
            }),
            final(world).spec_pheromone().grid_of(old(self).phase) == old(
                world,
            ).spec_pheromone().grid_of(old(self).phase),
            old(self).reserve > DEPOSIT_THRESHOLD ==> ({
                let op = old(self).phase.spec_opposite();
                let m = Marker {
                    position: old(self).position,
                    marker_type: op,
                    intensity: (old(self).reserve * 2 / 100) as i64,
                    initial_intensity: (old(self).reserve * 2 / 100) as i64,
                    permanent: false,
                };
                &&& final(self).reserve == old(self).reserve * 98 / 100
                &&& final(world).spec_pheromone().grid_of(op).cells_view() == old(
                    world,
                ).spec_pheromone().grid_of(op).spec_inserted(old(self).position, m)
            }),
            old(self).reserve <= DEPOSIT_THRESHOLD ==> final(self).reserve == old(self).reserve
                && final(world).spec_pheromone() == old(world).spec_pheromone(),
    {
        if self.reserve > DEPOSIT_THRESHOLD {
            let marker_type = self.phase.opposite();
            let intensity = self.reserve * 2 / 100;
            proof {
                vstd::arithmetic::div_mod::lemma_div_pos_is_pos(self.reserve as int * 2, 100);
                vstd::arithmetic::div_mod::lemma_div_is_ordered(self.reserve as int * 2, 4_000_000, 100);
                vstd::arithmetic::div_mod::lemma_div_pos_is_pos(self.reserve as int * 98, 100);
                vstd::arithmetic::div_mod::lemma_div_is_ordered(
                    self.reserve as int * 98,
                    196_000_000,
                    100,
                );
            }
            let marker = Marker::new(self.position, marker_type, intensity, false);
            world.add_marker(marker);
            self.reserve = self.reserve * 98 / 100;
            proof {
                assert(marker_type.spec_opposite() == old(self).phase);
            }
        }
        self.last_marker = 0;
    }

    /// The agent after the movement step and the food check: when in the
    /// ToFood phase and the (already moved and clamped) position finds
    /// food, the agent flips to ToHome, refills its reserve and reverses
    /// heading.
    pub open spec fn spec_after_food(self, dt: int, w_su: int, h_su: int, hits: bool) -> Ant {
        let a1 = self.spec_update_position(dt, w_su, h_su);
        if self.phase == MarkerType::ToFood && hits {
            Ant {
                phase: MarkerType::ToHome,
                reserve: MAX_RESERVE,
                direction: a1.direction.spec_add_now(HALF_TURN as int),
                ..a1
            }
        } else {
            a1
        }
    }

    /// The agent after the periodic direction update: when the timer
    /// fires, the timer rearms, the target swings to the sensed centroid
    /// of `ms` (if any) and then takes the noise offset; otherwise only
    /// the timer advances.
    pub open spec fn spec_after_direction(self, dt: int, ms: Seq<Marker>, noise: int) -> Ant {
        if self.last_direction_update + dt > DIRECTION_UPDATE_PERIOD {
            let a2 = Ant { last_direction_update: 0, ..self }.spec_find_target(ms);
            Ant { direction: a2.direction.spec_offset_target(noise), ..a2 }
        } else {
            Ant { last_direction_update: (self.last_direction_update + dt) as i64, ..self }
        }
    }

    /// The agent after the periodic deposit: when the timer fires, it
    /// rearms and — reserve permitting — the reserve decays
    /// multiplicatively; otherwise only the timer advances. (What the
    /// deposit does to the world is stated by `add_marker`.)
    pub open spec fn spec_after_deposit(self, dt: int) -> Ant {
        if self.last_marker + dt > MARKER_PERIOD {
            if self.reserve > DEPOSIT_THRESHOLD {
                Ant { last_marker: 0, reserve: (self.reserve * 98 / 100) as i64, ..self }
            } else {
                Ant { last_marker: 0, ..self }
            }
        } else {
            Ant { last_marker: (self.last_marker + dt) as i64, ..self }
        }
    }

    /// One whole frame as a relation between before and after values:
    /// exactly what `update` ensures of the agent, the world and the
    /// generator state, for stating whole-population orchestration.
    pub open spec fn frame_step(
        dt: int,
        a0: Ant,
        w0: World,
        g0: u64,
        a1: Ant,
        w1: World,
        g1: u64,
    ) -> bool {
        let w_su = w0.spec_width() * crate::SCALE;
        let h_su = w0.spec_height() * crate::SCALE;
        let m1 = a0.spec_update_position(dt, w_su, h_su);
        let af = a0.spec_after_food(dt, w_su, h_su, w0.pick_hits(m1.position));
        let ms = w0.spec_pheromone().grid_of(af.phase).neighborhood(af.position);
        let fires = af.last_direction_update + dt > DIRECTION_UPDATE_PERIOD;
        let noise = if fires {
            -DIRECTION_NOISE + crate::rng::spec_next_state(g0) as int % (2 * DIRECTION_NOISE + 1)
        } else {
            0
        };
        let a2 = af.spec_after_direction(dt, ms, noise);
        let a3 = a2.spec_after_deposit(dt);
        &&& a1 == (Ant { direction: a3.direction.spec_steer(dt), ..a3 })
        &&& g1 == if fires {
            crate::rng::spec_next_state(g0)
        } else {
            g0
        }
        &&& w1.spec_food().spec_grid().cells_view() == if a0.phase == MarkerType::ToFood {
            crate::food_index::picked_cells(w0.spec_food().spec_grid(), m1.position)
        } else {
            w0.spec_food().spec_grid().cells_view()
        }
        &&& w1.spec_pheromone().grid_of(af.phase) == w0.spec_pheromone().grid_of(af.phase)
        &&& w1.spec_pheromone().grid_of(af.phase.spec_opposite()).cells_view() == if a2.last_marker
            + dt > MARKER_PERIOD && a2.reserve > DEPOSIT_THRESHOLD {
            w0.spec_pheromone().grid_of(af.phase.spec_opposite()).spec_inserted(
                a2.position,
                Marker {
                    position: a2.position,
                    marker_type: af.phase.spec_opposite(),
                    intensity: (a2.reserve * 2 / 100) as i64,
                    initial_intensity: (a2.reserve * 2 / 100) as i64,
                    permanent: false,
                },
            )
        } else {
            w0.spec_pheromone().grid_of(af.phase.spec_opposite()).cells_view()
        }
        &&& a1.wf()
        &&& w1.wf()
        &&& w1.same_config(w0)
    }

    /// One frame of behaviour: move with boundary bounce; in the ToFood
    /// phase check for food; on the direction timer sense the phase's
    /// marker grid, steer toward the sensed centroid and add random
    /// heading noise; on the deposit timer lay a marker of the opposite
    /// channel; finally integrate the heading one step. The marker grid
    /// of the channel the agent ends the frame in is never written.
    #[verifier::rlimit(100)]
    pub fn update(&mut self, dt: i64, world: &mut World, rng: &mut SimRng)
        requires
            old(self).wf(),
            old(world).wf(),
            old(rng).wf(),
            0 <= dt <= MAX_DT,
        ensures
            final(self).wf(),
            final(world).wf(),
            final(rng).wf(),
            final(world).same_config(*old(world)),
            final(self).position.x <= old(world).spec_width() * crate::SCALE,
            final(self).position.y <= old(world).spec_height() * crate::SCALE,
            final(world).spec_pheromone().grid_of(final(self).phase) == old(
                world,
            ).spec_pheromone().grid_of(final(self).phase),
            grid_gained_deposit(
                old(world).spec_pheromone().grid_of(final(self).phase.spec_opposite()),
                final(world).spec_pheromone().grid_of(final(self).phase.spec_opposite()),
                *final(self),
            ),
            Ant::frame_step(
                dt as int,
                *old(self),
                *old(world),
                old(rng).spec_state(),
                *final(self),
                *final(world),
                final(rng).spec_state(),
            ),
    {
        let w_su = world.width_su();
        let h_su = world.height_su();
        self.update_position(dt, w_su, h_su);
        match self.phase {
            MarkerType::ToFood => self.check_food(world),
            MarkerType::ToHome => {},
        }
        if self.last_direction_update + dt > DIRECTION_UPDATE_PERIOD {
            self.last_direction_update = 0;
            self.find_marker(world);
            let noise = rng.gen_range(-DIRECTION_NOISE, DIRECTION_NOISE + 1);
            self.direction.offset_target(noise);
        } else {
            self.last_direction_update = self.last_direction_update + dt;
        }
        let ghost w_pre = *world;
        let ghost a_pre = *self;
        if self.last_marker + dt > MARKER_PERIOD {
            self.last_marker = 0;
            self.add_marker(world);
        } else {
            self.last_marker = self.last_marker + dt;
        }
        proof {
            let op = a_pre.phase.spec_opposite();
            let oldg = old(world).spec_pheromone().grid_of(op);
            let newg = world.spec_pheromone().grid_of(op);
            assert(w_pre.spec_pheromone() == old(world).spec_pheromone());
            if a_pre.last_marker + dt > MARKER_PERIOD && a_pre.reserve > DEPOSIT_THRESHOLD {
                let m = Marker {
                    position: a_pre.position,
                    marker_type: op,
                    intensity: (a_pre.reserve * 2 / 100) as i64,
                    initial_intensity: (a_pre.reserve * 2 / 100) as i64,
                    permanent: false,
                };
                assert(newg.cells_view() == oldg.spec_inserted(m.position, m));
                assert(grid_gained_deposit(oldg, newg, *self));
            } else {
                assert(newg == oldg);
            }
        }
        self.direction.update(dt);
    }
}

/// Phase/channel duality, at the channel level: no phase deposits into
/// its own grid, because the deposited channel is always the opposite
/// one, and taking the opposite twice returns to the phase itself.
pub proof fn lemma_phase_channel_duality(c: MarkerType)
    ensures
        c.spec_opposite() != c,
        c.spec_opposite().spec_opposite() == c,
{
}

/// The reserve after `n` deposit decays with no refill in between.
pub open spec fn decayed_reserve(r: int, n: nat) -> int
    decreases n,
{
    if n == 0 {
        r
    } else {
        decayed_reserve(r, (n - 1) as nat) * 98 / 100
    }
}

/// Reserve bound over whole frame sequences: however many deposit decays
/// run between refills, the reserve stays within [0, MAX_RESERVE] and
/// never increases.
pub proof fn lemma_reserve_bounded_over_frames(r: int, n: nat)
    requires
        0 <= r <= MAX_RESERVE,
    ensures
        0 <= decayed_reserve(r, n) <= r,
    decreases n,
{
    if n > 0 {
        lemma_reserve_bounded_over_frames(r, (n - 1) as nat);
        lemma_reserve_decay_in_bounds(decayed_reserve(r, (n - 1) as nat));
    }
}

/// Reserve bound: the multiplicative deposit decay keeps the reserve
/// within [0, MAX_RESERVE] and never increases it, and the deposited
/// intensity stays within the marker intensity cap.
pub proof fn lemma_reserve_decay_in_bounds(r: int)
    requires
        0 <= r <= MAX_RESERVE,
    ensures
        0 <= r * 98 / 100 <= r,
        0 <= r * 2 / 100 <= MAX_INTENSITY,
{
    vstd::arithmetic::div_mod::lemma_div_pos_is_pos(r * 98, 100);
    vstd::arithmetic::div_mod::lemma_div_pos_is_pos(r * 2, 100);
    vstd::arithmetic::div_mod::lemma_div_is_ordered(r * 98, r * 100, 100);
    vstd::arithmetic::div_mod::lemma_div_by_multiple(r, 100);
    vstd::arithmetic::div_mod::lemma_div_is_ordered(r * 2, 4_000_000, 100);
}

/// Boundary reflection: when exactly one axis of the unclamped movement
/// leaves the world rectangle, the moved agent's coordinate on that axis
/// is clamped exactly to the violated edge and its heading — target and
/// current angle together — is reversed by a half turn (pi radians) from
/// the pre-clamp target heading.
pub proof fn lemma_boundary_reflection(a: Ant, dt: int, w_su: int, h_su: int)
    requires
        a.wf(),
        0 <= dt <= MAX_DT,
        0 < w_su <= MAX_POS,
        0 < h_su <= MAX_POS,
        ({
            let m = a.moved_pos(dt);
            (m.x < 0 || m.x > w_su) != (m.y < 0 || m.y > h_su)
        }),
    ensures
        ({
            let m = a.moved_pos(dt);
            let r = a.spec_update_position(dt, w_su, h_su);
            &&& r.direction.target_angle == norm_angle(a.direction.target_angle + HALF_TURN)
            &&& r.direction.angle == r.direction.target_angle
            &&& (m.x < 0 ==> r.position.x == 0)
            &&& (m.x > w_su ==> r.position.x == w_su)
            &&& (m.y < 0 ==> r.position.y == 0)
            &&& (m.y > h_su ==> r.position.y == h_su)
            &&& (m.x < 0 || m.x > w_su ==> r.position.y == m.y)
            &&& (m.y < 0 || m.y > h_su ==> r.position.x == m.x)
        }),
{
    vstd::arithmetic::div_mod::lemma_mod_bound(
        a.direction.target_angle + HALF_TURN,
        FULL_TURN as int,
    );
}

} // verus!
