//! The colony: a fixed-size population of agents around a home position.
//!
//! Each frame the colony first advances every agent's full update in
//! population order, and only after all agents have moved runs the
//! colony-arrival check across the whole population — arrival handling
//! mutates phase, reserve and heading, and interleaving it with movement
//! would let an agent's own arrival reset corrupt its in-progress frame.

use vstd::prelude::*;
use crate::vec2::Vec2;
use crate::ant::Ant;
use crate::marker::MarkerType;
use crate::rng::SimRng;
use crate::world::World;
use crate::{MAX_POS, MAX_DT, MAX_RESERVE, FULL_TURN, SCALE};

verus! {

/// A population's first pass: agent i steps by exactly one frame
/// (`Ant::frame_step`) from world i to world i+1, threading the
/// generator state through in population order.
pub open spec fn frames_chain(
    dt: int,
    before: Seq<Ant>,
    after: Seq<Ant>,
    ws: Seq<World>,
    gs: Seq<u64>,
) -> bool {
    &&& after.len() == before.len()
    &&& ws.len() == before.len() + 1
    &&& gs.len() == before.len() + 1
    &&& forall|i: int|
        0 <= i < before.len() ==> #[trigger] Ant::frame_step(
            dt,
            before[i],
            ws[i],
            gs[i],
            after[i],
            ws[i + 1],
            gs[i + 1],
        )
}

/// A colony: home position and its agents. The population is created
/// once and its size never changes.
pub struct Colony {
    pub position: Vec2,
    pub ants: Vec<Ant>,
}

impl Colony {
    /// Home position inside the coordinate range; every agent well
    /// formed.
    pub open spec fn wf(self) -> bool {
        &&& 0 <= self.position.x <= MAX_POS
        &&& 0 <= self.position.y <= MAX_POS
        &&& forall|i: int| 0 <= i < self.ants@.len() ==> (#[trigger] self.ants@[i]).wf()
    }

    /// Builds a colony of `population` agents at `position`, each with a
    /// random initial heading and randomized behaviour-timer offsets.
    pub fn new(position: Vec2, population: usize, rng: &mut SimRng) -> (r: Colony)
        requires
            0 <= position.x <= MAX_POS,
            0 <= position.y <= MAX_POS,
            old(rng).wf(),
        ensures
            r.wf(),
            final(rng).wf(),
            r.position == position,
            r.ants@.len() == population as int,
            forall|i: int|
                0 <= i < r.ants@.len() ==> {
                    let a = #[trigger] r.ants@[i];
                    &&& a.position == position
                    &&& a.phase == MarkerType::ToFood
                    &&& a.reserve == MAX_RESERVE
                },
    {
        let mut ants: Vec<Ant> = Vec::new();
        let mut i: usize = 0;
        while i < population
            invariant
                0 <= position.x <= MAX_POS,
                0 <= position.y <= MAX_POS,
                rng.wf(),
                i <= population,
                ants@.len() == i as int,
                forall|k: int| 0 <= k < i as int ==> (#[trigger] ants@[k]).wf(),
                forall|k: int|
                    0 <= k < i as int ==> {
                        let a = #[trigger] ants@[k];
                        &&& a.position == position
                        &&& a.phase == MarkerType::ToFood
                        &&& a.reserve == MAX_RESERVE
                    },
            decreases population - i,
        {
            let rotation = rng.gen_range(0, FULL_TURN);
            let a = Ant::new(position, rotation, rng);
            ants.push(a);
            i = i + 1;
        }
        Colony { position, ants }
    }

    /// One frame for the whole population, in two passes: every agent's
    /// full update (movement, sensing, depositing) first, then the
    /// colony-arrival check for every agent.
    pub fn update(&mut self, dt: i64, world: &mut World, rng: &mut SimRng)
        requires
            old(self).wf(),
            old(world).wf(),
            old(rng).wf(),
            0 <= dt <= MAX_DT,
        ensures
            final(self).wf(),
            final(world).wf(),
            final(rng).wf(),
            final(world).same_config(*old(world)),
            final(self).position == old(self).position,
            final(self).ants@.len() == old(self).ants@.len(),
            forall|i: int|
                0 <= i < final(self).ants@.len() ==> {
                    let a = #[trigger] final(self).ants@[i];
                    &&& 0 <= a.position.x <= old(world).spec_width() * SCALE
                    &&& 0 <= a.position.y <= old(world).spec_height() * SCALE
                },
            // Two-pass protocol: pass one advances each agent by exactly
            // one frame, in population order, threading the world and the
            // generator through; pass two applies the arrival check last,
            // to every agent of the fully moved population.
            exists|mid: Seq<Ant>, ws: Seq<World>, gs: Seq<u64>|
                #[trigger] frames_chain(dt as int, old(self).ants@, mid, ws, gs) && ws[0] == *old(
                    world,
                ) && ws[ws.len() - 1] == *final(world) && gs[0] == old(rng).spec_state()
                    && gs[gs.len() - 1] == final(rng).spec_state() && forall|i: int|
                    0 <= i < mid.len() ==> (#[trigger] mid[i]).wf() && final(self).ants@[i]
                        == mid[i].spec_check_colony(old(self).position),
    {
        let n = self.ants.len();
        let ghost mut ws: Seq<World> = seq![*world];
        let ghost mut gs: Seq<u64> = seq![rng.spec_state()];
        let mut i: usize = 0;
        while i < n
            invariant
                self.wf(),
                world.wf(),
                rng.wf(),
                world.same_config(*old(world)),
                0 <= dt <= MAX_DT,
                i <= n,
                n as int == self.ants@.len(),
                self.ants@.len() == old(self).ants@.len(),
                self.position == old(self).position,
                ws.len() == i as int + 1,
                gs.len() == i as int + 1,
                ws[0] == *old(world),
                gs[0] == old(rng).spec_state(),
                ws[i as int] == *world,
                gs[i as int] == rng.spec_state(),
                forall|k: int|
                    0 <= k < i as int ==> #[trigger] Ant::frame_step(
                        dt as int,
                        old(self).ants@[k],
                        ws[k],
                        gs[k],
                        self.ants@[k],
                        ws[k + 1],
                        gs[k + 1],
                    ),
                forall|k: int|
                    i as int <= k < n as int ==> (#[trigger] self.ants@[k]) == old(self).ants@[k],
                forall|k: int|
                    0 <= k < i as int ==> {
                        let a = #[trigger] self.ants@[k];
                        &&& 0 <= a.position.x <= old(world).spec_width() * SCALE
                        &&& 0 <= a.position.y <= old(world).spec_height() * SCALE
                    },
            decreases n - i,
        {
            let ghost w_pre = *world;
            let ghost g_pre = rng.spec_state();
            let mut a = self.ants[i];
            a.update(dt, world, rng);
            self.ants[i] = a;
            proof {
                ws = ws.push(*world);
                gs = gs.push(rng.spec_state());
                assert(Ant::frame_step(
                    dt as int,
                    old(self).ants@[i as int],
                    ws[i as int],
                    gs[i as int],
                    self.ants@[i as int],
                    ws[i as int + 1],
                    gs[i as int + 1],
                ));
            }
            i = i + 1;
        }
        let ghost mid = self.ants@;
        let mut j: usize = 0;
        while j < n
            invariant
                self.wf(),
                world.wf(),
                rng.wf(),
                world.same_config(*old(world)),
                j <= n,
                n as int == self.ants@.len(),
                self.ants@.len() == old(self).ants@.len(),
                mid.len() == old(self).ants@.len(),
                frames_chain(dt as int, old(self).ants@, mid, ws, gs),
                ws.len() == n as int + 1,
                gs.len() == n as int + 1,
                ws[0] == *old(world),
                gs[0] == old(rng).spec_state(),
                ws[n as int] == *world,
                gs[n as int] == rng.spec_state(),
                self.position == old(self).position,
                forall|k: int| 0 <= k < n as int ==> (#[trigger] mid[k]).wf(),
                forall|k: int|
                    0 <= k < j as int ==> (#[trigger] self.ants@[k]) == mid[k].spec_check_colony(
                        self.position,
                    ),
                forall|k: int| j as int <= k < n as int ==> (#[trigger] self.ants@[k]) == mid[k],
                forall|k: int|
                    0 <= k < n as int ==> {
                        let a = #[trigger] self.ants@[k];
                        &&& 0 <= a.position.x <= old(world).spec_width() * SCALE
                        &&& 0 <= a.position.y <= old(world).spec_height() * SCALE
                    },
            decreases n - j,
        {
            let mut a = self.ants[j];
            a.check_colony(self.position);
            self.ants[j] = a;
            j = j + 1;
        }
        proof {
            assert(frames_chain(dt as int, old(self).ants@, mid, ws, gs));
        }
    }
}

} // verus!
