use vstd::prelude::*;

use crate::cell::Cell;
use crate::grid::{in_seed_region, seeds, Grid};

verus! {

/// Draws are taken from `0..CHANCE_SCALE`; a chance of `c` seeds a cell
/// alive with probability `c / CHANCE_SCALE`.
pub const CHANCE_SCALE: u32 = 1000;

/// Relies on `rand::Rng::gen_range` over `rand::thread_rng()`: a value in
/// `0..bound`. It panics on an empty range, so `bound` must be positive.
#[verifier::external_body]
fn draw_below(bound: u32) -> (r: u32)
    requires
        bound > 0,
    ensures
        r < bound,
{
    rand::Rng::gen_range(&mut rand::thread_rng(), 0..bound)
}

/// Whether a coordinate lies in the central third of an axis of side `n`.
pub fn in_seed_range(n: u32, c: u32) -> (r: bool)
    ensures
        r == in_seed_region(n as int, c as int),
{
    n / 3 <= c && c as u64 <= n as u64 * 2 / 3
}

impl Grid {
    /// `self` is `before` seeded from `draws`: a cell of the central sub-cube
    /// whose draw is below `alive_chance` is fully alive, and every other cell
    /// keeps its health; no neighbour count changes.
    pub open spec fn seeded_from(&self, before: &Grid, draws: Seq<u32>, alive_chance: u32) -> bool {
        &&& self.cells@.len() == before.cells@.len()
        &&& draws.len() == before.cells@.len()
        &&& forall|i: int|
            0 <= i < self.cells@.len() ==> {
                &&& (#[trigger] self.cells@[i]).health == if seeds(
                    before.size as int,
                    before.cells@[i],
                ) && draws[i] < alive_chance {
                    before.max_health as i64
                } else {
                    before.cells@[i].health
                }
                &&& self.cells@[i].neighbors == before.cells@[i].neighbors
            }
    }

    /// Seeds the central sub-cube from the given draws: cell `i` there comes
    /// fully alive when `draws[i] < alive_chance`; every other cell keeps its
    /// health.
    pub fn seed_with_draws(&mut self, draws: &Vec<u32>, alive_chance: u32)
        requires
            old(self).wf(),
            draws@.len() == old(self).cells@.len(),
        ensures
            final(self).wf(),
            final(self).same_frame(old(self)),
            final(self).seeded_from(old(self), draws@, alive_chance),
    {
        let n = self.size;
        let len = self.cells.len();
        let mut i: usize = 0;
        while i < len
            invariant
                self.wf(),
                self.same_frame(old(self)),
                n == self.size,
                len == self.cells@.len(),
                draws@.len() == len,
                i <= len,
                forall|j: int| i <= j < len ==> #[trigger] self.cells@[j] == old(self).cells@[j],
                forall|j: int|
                    0 <= j < i ==> {
                        &&& (#[trigger] self.cells@[j]).health == if seeds(
                            n as int,
                            old(self).cells@[j],
                        ) && draws@[j] < alive_chance {
                            old(self).max_health as i64
                        } else {
                            old(self).cells@[j].health
                        }
                        &&& self.cells@[j].neighbors == old(self).cells@[j].neighbors
                    },
            decreases len - i,
        {
            let c = self.cells[i];
            if in_seed_range(n, c.x) && in_seed_range(n, c.y) && in_seed_range(n, c.z)
                && draws[i] < alive_chance {
                let ghost old_grid = *self;
                self.cells.set(
                    i,
                    Cell { x: c.x, y: c.y, z: c.z, health: self.max_health as i64, neighbors: c.neighbors },
                );
                assert forall|j: int| 0 <= j < len implies #[trigger] self.cell_ok(j) by {
                    assert(old_grid.cell_ok(j));
                }
            }
            i = i + 1;
        }
    }

    /// Seeds the central sub-cube at random: each cell there comes fully
    /// alive with probability `alive_chance / CHANCE_SCALE`. The result is
    /// the grid seeded from some draws below `CHANCE_SCALE`; so with a chance
    /// of at least `CHANCE_SCALE` every central cell comes alive, and with a
    /// chance of zero nothing changes.
    pub fn seed_random(&mut self, alive_chance: u32)
        requires
            old(self).wf(),
        ensures
            final(self).wf(),
            final(self).same_frame(old(self)),
            exists|d: Seq<u32>|
                (forall|j: int| 0 <= j < d.len() ==> #[trigger] d[j] < CHANCE_SCALE)
                    && #[trigger] final(self).seeded_from(old(self), d, alive_chance),
            forall|i: int|
                0 <= i < final(self).cells@.len() ==> {
                    &&& !seeds(old(self).size as int, old(self).cells@[i])
                        ==> (#[trigger] final(self).cells@[i]).health == old(self).cells@[i].health
                    &&& alive_chance >= CHANCE_SCALE && seeds(old(self).size as int, old(self).cells@[i])
                        ==> final(self).cells@[i].health == old(self).max_health
                    &&& alive_chance == 0 ==> final(self).cells@[i].health == old(self).cells@[i].health
                    &&& final(self).cells@[i].health == old(self).cells@[i].health
                        || final(self).cells@[i].health == old(self).max_health
                    &&& final(self).cells@[i].neighbors == old(self).cells@[i].neighbors
                },
    {
        let len = self.cells.len();
        let mut draws: Vec<u32> = Vec::new();
        let mut i: usize = 0;
        while i < len
            invariant
                i <= len,
                draws@.len() == i,
                forall|j: int| 0 <= j < i ==> #[trigger] draws@[j] < CHANCE_SCALE,
            decreases len - i,
        {
            draws.push(draw_below(CHANCE_SCALE));
            i = i + 1;
        }
        self.seed_with_draws(&draws, alive_chance);
        assert(self.seeded_from(old(self), draws@, alive_chance));
    }
}

} // verus!
