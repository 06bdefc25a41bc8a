use vstd::prelude::*;

use crate::cell::{instance_of, next_health, Cell, Instance};
use crate::rules::{ConfigError, RuleTable, MAX_NEIGHBORS, RULE_LEN};

verus! {

/// Number of cells in a cubic lattice of side `n`.
pub open spec fn cube(n: int) -> int {
    n * n * n
}

/// The row-major position of `(x, y, z)` in a lattice of side `n`.
pub open spec fn index_of(n: int, x: int, y: int, z: int) -> int {
    z + y * n + x * n * n
}

/// Whether `(x, y, z)` lies in a lattice of side `n`.
pub open spec fn in_bounds(n: int, x: int, y: int, z: int) -> bool {
    0 <= x < n && 0 <= y < n && 0 <= z < n
}

/// The 27 points of `{-1, 0, 1}³` are numbered `k = 9 (dx + 1) + 3 (dy + 1) + (dz + 1)`;
/// these give back each component.
pub open spec fn offset_x(k: int) -> int {
    k / 9 - 1
}

pub open spec fn offset_y(k: int) -> int {
    (k / 3) % 3 - 1
}

pub open spec fn offset_z(k: int) -> int {
    k % 3 - 1
}

/// The number of the offset `(0, 0, 0)`, the cell itself.
pub const CENTER_OFFSET: u32 = 13;

/// Number of points in `{-1, 0, 1}³`.
pub const OFFSET_COUNT: u32 = 27;

/// Whether `(x, y, z)` is in the lattice and fully alive, by the healths `h`.
pub open spec fn alive_at(h: Seq<i64>, n: int, max: int, x: int, y: int, z: int) -> bool {
    in_bounds(n, x, y, z) && h[index_of(n, x, y, z)] == max
}

/// Among the first `k` offsets other than the centre, how many lead to a
/// fully alive cell inside the lattice.
pub open spec fn neighbors_below(
    h: Seq<i64>,
    n: int,
    max: int,
    x: int,
    y: int,
    z: int,
    k: nat,
) -> nat
    decreases k,
{
    if k == 0 {
        0
    } else {
        let j = k - 1;
        neighbors_below(h, n, max, x, y, z, (k - 1) as nat) + if j != CENTER_OFFSET
            && alive_at(h, n, max, x + offset_x(j), y + offset_y(j), z + offset_z(j)) {
            1nat
        } else {
            0nat
        }
    }
}

/// The number of fully alive cells among the in-bounds Moore neighbours of
/// `(x, y, z)`; the cell itself is never counted and nothing wraps around.
pub open spec fn neighbor_count(h: Seq<i64>, n: int, max: int, x: int, y: int, z: int) -> nat {
    neighbors_below(h, n, max, x, y, z, OFFSET_COUNT as nat)
}

/// Whether a coordinate lies in the central third of an axis of side `n`,
/// where cells are seeded at the start.
pub open spec fn in_seed_region(n: int, c: int) -> bool {
    n / 3 <= c <= n * 2 / 3
}

pub open spec fn seeds(n: int, c: Cell) -> bool {
    in_seed_region(n, c.x as int) && in_seed_region(n, c.y as int) && in_seed_region(n, c.z as int)
}

/// The render instances of the visible cells of `cells`, in their order.
pub open spec fn visible_instances(cells: Seq<Cell>, max: int) -> Seq<Instance>
    decreases cells.len(),
{
    if cells.len() == 0 {
        Seq::empty()
    } else {
        let rest = visible_instances(cells.drop_last(), max);
        if cells.last().health >= 0 {
            rest.push(instance_of(cells.last(), max))
        } else {
            rest
        }
    }
}

proof fn lemma_index_in_range(n: int, x: int, y: int, z: int)
    requires
        in_bounds(n, x, y, z),
    ensures
        0 <= y * n <= n * n,
        0 <= x * n <= n * n,
        0 <= x * n * n,
        n * n <= cube(n),
        0 <= index_of(n, x, y, z) < cube(n),
{
    assert(0 <= y * n <= n * n) by (nonlinear_arith)
        requires
            0 <= y < n,
    ;
    assert(0 <= x * n <= n * n) by (nonlinear_arith)
        requires
            0 <= x < n,
    ;
    assert(z + y * n < (y + 1) * n) by (nonlinear_arith)
        requires
            0 <= z < n,
    ;
    assert((y + 1) * n <= n * n) by (nonlinear_arith)
        requires
            0 <= y < n,
    ;
    assert(n * n <= n * n * n) by (nonlinear_arith)
        requires
            0 < n,
    ;
    assert(0 <= x * n * n && x * n * n + n * n <= n * n * n) by (nonlinear_arith)
        requires
            0 <= x < n,
    ;
}

/// The lattice: a cube of `size³` cells stored row-major, with the health
/// bound and rule tables that drive it.
#[derive(Clone, Debug)]
pub struct Grid {
    pub size: u32,
    pub max_health: u32,
    pub rules: RuleTable,
    pub cells: Vec<Cell>,
}

impl Grid {
    /// Cell `i` sits at the lattice point whose index is `i`, with a health in
    /// `{-1} ∪ [0, max_health]` and a neighbour count of at most 26.
    pub open spec fn cell_ok(&self, i: int) -> bool {
        let c = self.cells@[i];
        &&& c.x < self.size
        &&& c.y < self.size
        &&& c.z < self.size
        &&& index_of(self.size as int, c.x as int, c.y as int, c.z as int) == i
        &&& c.health_ok(self.max_health as int)
        &&& c.neighbors <= MAX_NEIGHBORS
    }

    pub open spec fn wf(&self) -> bool {
        &&& self.size > 0
        &&& cube(self.size as int) <= usize::MAX
        &&& self.rules.wf()
        &&& self.cells@.len() == cube(self.size as int)
        &&& forall|i: int| 0 <= i < self.cells@.len() ==> #[trigger] self.cell_ok(i)
    }

    /// The healths of all cells, by index.
    pub open spec fn healths(&self) -> Seq<i64> {
        self.cells@.map_values(|c: Cell| c.health)
    }

    /// The number of fully alive neighbours of `(x, y, z)` in the current state.
    pub open spec fn count_at(&self, x: int, y: int, z: int) -> nat {
        neighbor_count(self.healths(), self.size as int, self.max_health as int, x, y, z)
    }

    /// The neighbour count of cell `i` in the current state.
    pub open spec fn count_of(&self, i: int) -> nat {
        let c = self.cells@[i];
        self.count_at(c.x as int, c.y as int, c.z as int)
    }

    /// The health cell `i` has after one tick from the current state.
    pub open spec fn next_health_of(&self, i: int) -> int {
        let k = self.count_of(i) as int;
        next_health(
            self.cells@[i].health as int,
            self.max_health as int,
            self.rules.survives_spec(k),
            self.rules.spawns_spec(k),
        )
    }

    /// Two grids of the same shape and rules, with every cell where it was.
    pub open spec fn same_frame(&self, other: &Grid) -> bool {
        &&& self.size == other.size
        &&& self.max_health == other.max_health
        &&& self.rules == other.rules
        &&& self.cells@.len() == other.cells@.len()
        &&& forall|i: int|
            0 <= i < self.cells@.len() ==> {
                &&& (#[trigger] self.cells@[i]).x == other.cells@[i].x
                &&& self.cells@[i].y == other.cells@[i].y
                &&& self.cells@[i].z == other.cells@[i].z
            }
    }

    /// The health of the cell at `(x, y, z)`.
    pub open spec fn health_at(&self, x: int, y: int, z: int) -> i64 {
        self.cells@[index_of(self.size as int, x, y, z)].health
    }

    /// The linear index of the in-bounds point `(x, y, z)`.
    pub fn index(&self, x: u32, y: u32, z: u32) -> (r: usize)
        requires
            self.wf(),
            in_bounds(self.size as int, x as int, y as int, z as int),
        ensures
            r == index_of(self.size as int, x as int, y as int, z as int),
            r < self.cells@.len(),
    {
        proof {
            lemma_index_in_range(self.size as int, x as int, y as int, z as int);
        }
        let n = self.size as usize;
        z as usize + y as usize * n + x as usize * n * n
    }

    /// Whether `(x, y, z)` moved by `(dx, dy, dz)` stays inside the lattice.
    pub fn valid_idx(&self, x: u32, y: u32, z: u32, dx: i64, dy: i64, dz: i64) -> (r: bool)
        requires
            -1 <= dx <= 1,
            -1 <= dy <= 1,
            -1 <= dz <= 1,
        ensures
            r == in_bounds(self.size as int, x + dx, y + dy, z + dz),
    {
        let n = self.size as i64;
        let (nx, ny, nz) = (x as i64 + dx, y as i64 + dy, z as i64 + dz);
        0 <= nx && nx < n && 0 <= ny && ny < n && 0 <= nz && nz < n
    }

    /// Counts the fully alive cells among the in-bounds neighbours of
    /// `(x, y, z)`, leaving the cell itself out.
    pub fn neighbor_count(&self, x: u32, y: u32, z: u32) -> (r: u32)
        requires
            self.wf(),
            in_bounds(self.size as int, x as int, y as int, z as int),
        ensures
            r == self.count_at(x as int, y as int, z as int),
            r <= MAX_NEIGHBORS,
    {
        let mut count: u32 = 0;
        let mut k: u32 = 0;
        while k < OFFSET_COUNT
            invariant
                self.wf(),
                in_bounds(self.size as int, x as int, y as int, z as int),
                k <= OFFSET_COUNT,
                count == neighbors_below(
                    self.healths(),
                    self.size as int,
                    self.max_health as int,
                    x as int,
                    y as int,
                    z as int,
                    k as nat,
                ),
                count <= k - (if k > CENTER_OFFSET { 1int } else { 0int }),
            decreases OFFSET_COUNT - k,
        {
            if k != CENTER_OFFSET {
                let dx = (k / 9) as i64 - 1;
                let dy = ((k / 3) % 3) as i64 - 1;
                let dz = (k % 3) as i64 - 1;
                if self.valid_idx(x, y, z, dx, dy, dz) {
                    let idx = self.index(
                        (x as i64 + dx) as u32,
                        (y as i64 + dy) as u32,
                        (z as i64 + dz) as u32,
                    );
                    if self.cells[idx].is_alive(self.max_health) {
                        count = count + 1;
                    }
                }
            }
            k = k + 1;
        }
        count
    }

    /// Recounts every cell's fully alive neighbours from the current
    /// healths. No health changes, so every count is taken from the same
    /// state.
    pub fn count_neighbors(&mut self)
        requires
            old(self).wf(),
        ensures
            final(self).wf(),
            final(self).same_frame(old(self)),
            final(self).healths() == old(self).healths(),
            forall|i: int|
                0 <= i < final(self).cells@.len() ==> (#[trigger] final(self).cells@[i]).neighbors
                    == old(self).count_of(i),
    {
        let len = self.cells.len();
        let mut i: usize = 0;
        while i < len
            invariant
                self.wf(),
                self.same_frame(old(self)),
                self.healths() == old(self).healths(),
                len == self.cells@.len(),
                i <= len,
                forall|j: int|
                    0 <= j < i ==> (#[trigger] self.cells@[j]).neighbors == old(self).count_of(j),
            decreases len - i,
        {
            let c = self.cells[i];
            assert(self.cell_ok(i as int));
            let count = self.neighbor_count(c.x, c.y, c.z);
            let ghost before = self.cells@;
            let ghost old_grid = *self;
            self.cells.set(i, Cell { x: c.x, y: c.y, z: c.z, health: c.health, neighbors: count });
            proof {
                assert(self.healths() =~= old(self).healths()) by {
                    assert(forall|j: int|
                        0 <= j < len ==> #[trigger] self.cells@[j].health == before[j].health);
                }
                assert forall|j: int| 0 <= j < len implies #[trigger] self.cell_ok(j) by {
                    if j != i {
                        assert(self.cells@[j] == before[j]);
                        assert(old_grid.cell_ok(j));
                    } else {
                        assert(old_grid.cell_ok(j));
                    }
                }
            }
            i = i + 1;
        }
    }

    /// Moves every cell one tick on by its counted neighbours.
    pub fn sync_cells(&mut self)
        requires
            old(self).wf(),
        ensures
            final(self).wf(),
            final(self).same_frame(old(self)),
            forall|i: int|
                0 <= i < final(self).cells@.len() ==> {
                    let c = old(self).cells@[i];
                    &&& (#[trigger] final(self).cells@[i]).health == next_health(
                        c.health as int,
                        old(self).max_health as int,
                        old(self).rules.survives_spec(c.neighbors as int),
                        old(self).rules.spawns_spec(c.neighbors as int),
                    )
                    &&& final(self).cells@[i].neighbors == c.neighbors
                },
    {
        let len = self.cells.len();
        let mut i: usize = 0;
        while i < len
            invariant
                self.wf(),
                self.same_frame(old(self)),
                len == self.cells@.len(),
                i <= len,
                forall|j: int|
                    i <= j < len ==> #[trigger] self.cells@[j] == old(self).cells@[j],
                forall|j: int|
                    0 <= j < i ==> {
                        let c = old(self).cells@[j];
                        &&& (#[trigger] self.cells@[j]).health == next_health(
                            c.health as int,
                            old(self).max_health as int,
                            old(self).rules.survives_spec(c.neighbors as int),
                            old(self).rules.spawns_spec(c.neighbors as int),
                        )
                        &&& self.cells@[j].neighbors == c.neighbors
                    },
            decreases len - i,
        {
            let mut c = self.cells[i];
            assert(self.cell_ok(i as int));
            c.sync(self.max_health, &self.rules);
            let ghost before = self.cells@;
            let ghost old_grid = *self;
            self.cells.set(i, c);
            proof {
                assert forall|j: int| 0 <= j < len implies #[trigger] self.cell_ok(j) by {
                    if j != i {
                        assert(self.cells@[j] == before[j]);
                        assert(old_grid.cell_ok(j));
                    } else {
                        assert(old_grid.cell_ok(j));
                    }
                }
            }
            i = i + 1;
        }
    }

    /// Advances the automaton by one tick: first every neighbour count is
    /// taken from the current state, then every cell moves on by it.
    pub fn tick(&mut self)
        requires
            old(self).wf(),
        ensures
            final(self).wf(),
            final(self).same_frame(old(self)),
            final(self).cells@.len() == cube(old(self).size as int),
            forall|i: int|
                0 <= i < final(self).cells@.len() ==> {
                    &&& (#[trigger] final(self).cells@[i]).health == old(self).next_health_of(i)
                    &&& final(self).cells@[i].neighbors == old(self).count_of(i)
                    &&& -1 <= final(self).cells@[i].health <= final(self).max_health
                },
    {
        self.count_neighbors();
        let ghost counted = *self;
        self.sync_cells();
        assert forall|i: int| 0 <= i < self.cells@.len() implies {
            &&& (#[trigger] self.cells@[i]).health == old(self).next_health_of(i)
            &&& self.cells@[i].neighbors == old(self).count_of(i)
            &&& -1 <= self.cells@[i].health <= self.max_health
        } by {
            assert(counted.healths()[i] == old(self).healths()[i]);
            assert(self.cell_ok(i));
        }
    }

    /// The render instances of every visible cell (alive or dying), in the
    /// cells' order; dead cells are left out.
    pub fn extract_instances(&self) -> (r: Vec<Instance>)
        requires
            self.wf(),
        ensures
            r@ == visible_instances(self.cells@, self.max_health as int),
    {
        let mut r: Vec<Instance> = Vec::new();
        let mut i: usize = 0;
        while i < self.cells.len()
            invariant
                self.wf(),
                i <= self.cells@.len(),
                r@ == visible_instances(self.cells@.subrange(0, i as int), self.max_health as int),
            decreases self.cells@.len() - i,
        {
            let c = self.cells[i];
            assert(self.cells@.subrange(0, i + 1).drop_last() =~= self.cells@.subrange(0, i as int));
            if c.is_visible() {
                assert(self.cell_ok(i as int));
                r.push(c.create_instance(self.max_health));
            }
            i = i + 1;
        }
        assert(self.cells@.subrange(0, i as int) =~= self.cells@);
        r
    }

    /// A lattice of side `size` with every cell dead, driven by the given
    /// health bound and rule tables. Fails on an empty lattice or on a rule
    /// column without exactly one entry per neighbour count.
    pub fn new(size: u32, max_health: u32, survival: Vec<bool>, spawn: Vec<bool>) -> (r: Result<
        Grid,
        ConfigError,
    >)
        requires
            cube(size as int) <= usize::MAX,
        ensures
            (r is Ok) == (size > 0 && survival@.len() == RULE_LEN && spawn@.len() == RULE_LEN),
            size == 0 ==> r == Err::<Grid, ConfigError>(ConfigError::EmptyGrid),
            size > 0 && survival@.len() != RULE_LEN ==> r == Err::<Grid, ConfigError>(
                ConfigError::SurvivalLength,
            ),
            size > 0 && survival@.len() == RULE_LEN && spawn@.len() != RULE_LEN ==> r == Err::<
                Grid,
                ConfigError,
            >(ConfigError::SpawnLength),
            r matches Ok(g) ==> {
                &&& g.wf()
                &&& g.size == size
                &&& g.max_health == max_health
                &&& g.rules.survival@ == survival@
                &&& g.rules.spawn@ == spawn@
                &&& forall|i: int|
                    0 <= i < g.cells@.len() ==> (#[trigger] g.cells@[i]).health == -1
                        && g.cells@[i].neighbors == 0
            },
    {
        if size == 0 {
            return Err(ConfigError::EmptyGrid);
        }
        let rules = match RuleTable::new(survival, spawn) {
            Ok(t) => t,
            Err(e) => {
                return Err(e);
            },
        };
        let ghost n = size as int;
        let mut cells: Vec<Cell> = Vec::new();
        let mut x: u32 = 0;
        while x < size
            invariant
                0 < n == size,
                cube(n) <= usize::MAX,
                x <= size,
                cells@.len() == x * n * n,
                forall|i: int|
                    0 <= i < cells@.len() ==> {
                        let c = #[trigger] cells@[i];
                        &&& c.x < size && c.y < size && c.z < size
                        &&& index_of(n, c.x as int, c.y as int, c.z as int) == i
                        &&& c.health == -1 && c.neighbors == 0
                    },
            decreases size - x,
        {
            let mut y: u32 = 0;
            while y < size
                invariant
                    0 < n == size,
                    cube(n) <= usize::MAX,
                    x < size,
                    y <= size,
                    cells@.len() == x * n * n + y * n,
                    forall|i: int|
                        0 <= i < cells@.len() ==> {
                            let c = #[trigger] cells@[i];
                            &&& c.x < size && c.y < size && c.z < size
                            &&& index_of(n, c.x as int, c.y as int, c.z as int) == i
                            &&& c.health == -1 && c.neighbors == 0
                        },
                decreases size - y,
            {
                let mut z: u32 = 0;
                while z < size
                    invariant
                        0 < n == size,
                        cube(n) <= usize::MAX,
                        x < size,
                        y < size,
                        z <= size,
                        cells@.len() == x * n * n + y * n + z,
                        forall|i: int|
                            0 <= i < cells@.len() ==> {
                                let c = #[trigger] cells@[i];
                                &&& c.x < size && c.y < size && c.z < size
                                &&& index_of(n, c.x as int, c.y as int, c.z as int) == i
                                &&& c.health == -1 && c.neighbors == 0
                            },
                    decreases size - z,
                {
                    cells.push(Cell::new(x, y, z, -1));
                    z = z + 1;
                }
                assert(x * n * n + y * n + n == x * n * n + (y + 1) * n) by (nonlinear_arith);
                y = y + 1;
            }
            assert(x * n * n + n * n == (x + 1) * n * n) by (nonlinear_arith);
            x = x + 1;
        }
        let g = Grid { size, max_health, rules, cells };
        assert(forall|i: int| 0 <= i < g.cells@.len() ==> #[trigger] g.cell_ok(i));
        Ok(g)
    }

    /// The health of the cell at `(x, y, z)`.
    pub fn health(&self, x: u32, y: u32, z: u32) -> (r: i64)
        requires
            self.wf(),
            in_bounds(self.size as int, x as int, y as int, z as int),
        ensures
            r == self.health_at(x as int, y as int, z as int),
    {
        let i = self.index(x, y, z);
        self.cells[i].health
    }

    /// Sets the health of the cell at `(x, y, z)`, leaving every other cell
    /// as it was.
    pub fn set_health(&mut self, x: u32, y: u32, z: u32, health: i64)
        requires
            old(self).wf(),
            in_bounds(old(self).size as int, x as int, y as int, z as int),
            -1 <= health <= old(self).max_health,
        ensures
            final(self).wf(),
            final(self).same_frame(old(self)),
            final(self).health_at(x as int, y as int, z as int) == health,
            forall|i: int|
                0 <= i < final(self).cells@.len() && i != index_of(
                    old(self).size as int,
                    x as int,
                    y as int,
                    z as int,
                ) ==> #[trigger] final(self).cells@[i] == old(self).cells@[i],
            final(self).cells@[index_of(old(self).size as int, x as int, y as int, z as int)].neighbors
                == old(self).cells@[index_of(old(self).size as int, x as int, y as int, z as int)].neighbors,
    {
        let i = self.index(x, y, z);
        let c = self.cells[i];
        let ghost old_grid = *self;
        self.cells.set(i, Cell { x: c.x, y: c.y, z: c.z, health, neighbors: c.neighbors });
        assert forall|j: int| 0 <= j < self.cells@.len() implies #[trigger] self.cell_ok(j) by {
            assert(old_grid.cell_ok(j));
        }
    }
}

} // verus!
