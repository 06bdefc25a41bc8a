use vstd::prelude::*;

use crate::rules::{RuleTable, MAX_NEIGHBORS};

verus! {

/// The health a cell has one tick later.
///
/// A fully alive cell (`health == max`) stays so if the survival rule holds
/// and otherwise starts dying; a dead cell (`health < 0`) comes fully alive
/// if the spawn rule holds and otherwise stays at the dead marker `-1`; a
/// dying cell loses one point whatever its neighbours are.
pub open spec fn next_health(health: int, max: int, survives: bool, spawns: bool) -> int {
    if health == max {
        if survives {
            max
        } else {
            max - 1
        }
    } else if health < 0 {
        if spawns {
            max
        } else {
            -1
        }
    } else {
        health - 1
    }
}

/// How a cell is drawn.
#[derive(Clone, Copy, Debug, PartialEq, Eq, Structural)]
pub enum CellColor {
    /// The fixed colour of a fully alive cell.
    Highlight,
    /// A grey whose intensity is `level / scale`.
    Gray { level: u64, scale: u64 },
}

/// The colour of a cell with the given health: the highlight when fully
/// alive, else a grey of intensity `(health + 1) / (max + 2)`.
pub open spec fn color_of(health: int, max: int) -> CellColor {
    if health == max {
        CellColor::Highlight
    } else {
        CellColor::Gray { level: (health + 1) as u64, scale: (max + 2) as u64 }
    }
}

/// What the renderer needs of one visible cell: its lattice position and
/// its colour.
#[derive(Clone, Copy, Debug, PartialEq, Eq, Structural)]
pub struct Instance {
    pub x: u32,
    pub y: u32,
    pub z: u32,
    pub color: CellColor,
}

/// One lattice point: its position, its health, and the number of fully
/// alive neighbours it had when last counted.
#[derive(Clone, Copy, Debug, PartialEq, Eq, Structural)]
pub struct Cell {
    pub x: u32,
    pub y: u32,
    pub z: u32,
    pub health: i64,
    pub neighbors: u32,
}

/// The render instance of a cell.
pub open spec fn instance_of(c: Cell, max: int) -> Instance {
    Instance { x: c.x, y: c.y, z: c.z, color: color_of(c.health as int, max) }
}

impl Cell {
    /// Health lies in `{-1} ∪ [0, max]`.
    pub open spec fn health_ok(&self, max: int) -> bool {
        -1 <= self.health <= max
    }

    /// The cell at `(x, y, z)` with the given health and no neighbours counted.
    pub fn new(x: u32, y: u32, z: u32, health: i64) -> (r: Cell)
        ensures
            r == (Cell { x, y, z, health, neighbors: 0 }),
    {
        Cell { x, y, z, health, neighbors: 0 }
    }

    /// Whether the cell is fully alive, and so counts as a neighbour.
    pub fn is_alive(&self, max_health: u32) -> (r: bool)
        ensures
            r == (self.health == max_health),
    {
        self.health == max_health as i64
    }

    /// Whether the cell is drawn: alive or dying.
    pub fn is_visible(&self) -> (r: bool)
        ensures
            r == (self.health >= 0),
    {
        self.health >= 0
    }

    /// The colour the cell is drawn in.
    pub fn color(&self, max_health: u32) -> (r: CellColor)
        requires
            self.health_ok(max_health as int),
        ensures
            r == color_of(self.health as int, max_health as int),
    {
        if self.health == max_health as i64 {
            CellColor::Highlight
        } else {
            CellColor::Gray { level: (self.health + 1) as u64, scale: max_health as u64 + 2 }
        }
    }

    /// The render instance of the cell.
    pub fn create_instance(&self, max_health: u32) -> (r: Instance)
        requires
            self.health_ok(max_health as int),
        ensures
            r == instance_of(*self, max_health as int),
    {
        Instance { x: self.x, y: self.y, z: self.z, color: self.color(max_health) }
    }

    /// Moves the cell one tick on, by its counted neighbours.
    pub fn sync(&mut self, max_health: u32, rules: &RuleTable)
        requires
            rules.wf(),
            old(self).neighbors <= MAX_NEIGHBORS,
            old(self).health_ok(max_health as int),
        ensures
            final(self).health == next_health(
                old(self).health as int,
                max_health as int,
                rules.survives_spec(old(self).neighbors as int),
                rules.spawns_spec(old(self).neighbors as int),
            ),
            final(self).health_ok(max_health as int),
            final(self).x == old(self).x,
            final(self).y == old(self).y,
            final(self).z == old(self).z,
            final(self).neighbors == old(self).neighbors,
    {
        let max = max_health as i64;
        if self.health == max {
            if !rules.survives(self.neighbors) {
                self.health = max - 1;
            }
        } else if self.health < 0 {
            if rules.spawns(self.neighbors) {
                self.health = max;
            } else {
                self.health = -1;
            }
        } else {
            self.health = self.health - 1;
        }
    }
}

} // verus!
