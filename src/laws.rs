use vstd::prelude::*;

use crate::cell::{instance_of, Cell, Instance};
use crate::grid::{
    alive_at, in_bounds, index_of, neighbor_count, neighbors_below, offset_x, offset_y, offset_z,
    visible_instances, Grid, CENTER_OFFSET, OFFSET_COUNT,
};

verus! {

/// Among the first `k` offsets other than the centre, how many lead to a
/// point inside the lattice.
pub open spec fn in_bounds_below(n: int, x: int, y: int, z: int, k: nat) -> nat
    decreases k,
{
    if k == 0 {
        0
    } else {
        let j = k - 1;
        in_bounds_below(n, x, y, z, (k - 1) as nat) + if j != CENTER_OFFSET && in_bounds(
            n,
            x + offset_x(j),
            y + offset_y(j),
            z + offset_z(j),
        ) {
            1nat
        } else {
            0nat
        }
    }
}

/// The number of Moore neighbours of `(x, y, z)` that lie in the lattice.
pub open spec fn in_bounds_count(n: int, x: int, y: int, z: int) -> nat {
    in_bounds_below(n, x, y, z, OFFSET_COUNT as nat)
}

/// A fully alive cell whose neighbour count satisfies the survival rule is
/// fully alive again after the tick; one whose count does not starts dying
/// at `max_health - 1`.
pub proof fn alive_cell_stays_alive_iff_it_survives(g: Grid, i: int)
    requires
        g.wf(),
        0 <= i < g.cells@.len(),
        g.cells@[i].health == g.max_health,
    ensures
        g.rules.survives_spec(g.count_of(i) as int) ==> g.next_health_of(i) == g.max_health,
        !g.rules.survives_spec(g.count_of(i) as int) ==> g.next_health_of(i) == g.max_health - 1,
{
}

/// A dying cell loses exactly one point of health per tick, whatever its
/// neighbours and the rule tables say.
pub proof fn dying_cell_decays_by_one(g: Grid, h: Grid, i: int)
    requires
        g.wf(),
        h.wf(),
        0 <= i < g.cells@.len(),
        g.max_health == h.max_health,
        g.cells@[i].health == h.cells@[i].health,
        0 <= g.cells@[i].health < g.max_health,
    ensures
        g.next_health_of(i) == g.cells@[i].health - 1,
        g.next_health_of(i) == h.next_health_of(i),
{
}

/// A dead cell comes fully alive exactly when its neighbour count satisfies
/// the spawn rule, and otherwise stays dead.
pub proof fn dead_cell_spawns_iff_rule(g: Grid, i: int)
    requires
        g.wf(),
        0 <= i < g.cells@.len(),
        g.cells@[i].health < 0,
    ensures
        g.rules.spawns_spec(g.count_of(i) as int) ==> g.next_health_of(i) == g.max_health,
        !g.rules.spawns_spec(g.count_of(i) as int) ==> g.next_health_of(i) < 0,
{
}

/// After a tick every health is the dead marker `-1` or lies in
/// `[0, max_health]`.
pub proof fn next_health_stays_in_range(g: Grid, i: int)
    requires
        g.wf(),
        0 <= i < g.cells@.len(),
    ensures
        g.next_health_of(i) == -1 || 0 <= g.next_health_of(i) <= g.max_health,
{
    assert(g.cell_ok(i));
}

/// Every extracted instance is the instance of a visible cell, and every
/// visible cell has its instance among them.
pub proof fn extracted_instances_are_the_visible_cells(cells: Seq<Cell>, max: int)
    ensures
        forall|j: int|
            0 <= j < visible_instances(cells, max).len() ==> exists|i: int|
                0 <= i < cells.len() && cells[i].health >= 0 && #[trigger] visible_instances(
                    cells,
                    max,
                )[j] == instance_of(cells[i], max),
        forall|i: int|
            0 <= i < cells.len() && cells[i].health >= 0 ==> visible_instances(
                cells,
                max,
            ).contains(instance_of(#[trigger] cells[i], max)),
    decreases cells.len(),
{
    if cells.len() > 0 {
        let rest = cells.drop_last();
        extracted_instances_are_the_visible_cells(rest, max);
        let r = visible_instances(cells, max);
        let rr = visible_instances(rest, max);
        assert forall|j: int| 0 <= j < r.len() implies exists|i: int|
            0 <= i < cells.len() && cells[i].health >= 0 && #[trigger] r[j] == instance_of(
                cells[i],
                max,
            ) by {
            if j < rr.len() {
                let i = choose|i: int|
                    0 <= i < rest.len() && rest[i].health >= 0 && #[trigger] rr[j]
                        == instance_of(rest[i], max);
                assert(cells[i] == rest[i]);
            } else {
                assert(cells[cells.len() - 1] == cells.last());
            }
        }
        assert forall|i: int| 0 <= i < cells.len() && cells[i].health >= 0 implies r.contains(
            instance_of(#[trigger] cells[i], max),
        ) by {
            if i < rest.len() {
                assert(rest[i] == cells[i]);
                let j = choose|j: int| 0 <= j < rr.len() && rr[j] == instance_of(rest[i], max);
                assert(r[j] == rr[j]);
            } else {
                assert(r[r.len() - 1] == instance_of(cells.last(), max));
            }
        }
    }
}

/// Whether some instance of `r` stands at `(x, y, z)`.
pub open spec fn drawn_at(r: Seq<Instance>, x: u32, y: u32, z: u32) -> bool {
    exists|j: int| 0 <= j < r.len() && (#[trigger] r[j]).x == x && r[j].y == y && r[j].z == z
}

/// In a well-formed grid, a cell's position is among the extracted
/// instances exactly when the cell is alive or dying: dead cells never
/// appear.
pub proof fn extracted_positions_are_the_visible_cells(g: Grid)
    requires
        g.wf(),
    ensures
        forall|i: int|
            0 <= i < g.cells@.len() ==> ((#[trigger] g.cells@[i]).health >= 0 <==> drawn_at(
                visible_instances(g.cells@, g.max_health as int),
                g.cells@[i].x,
                g.cells@[i].y,
                g.cells@[i].z,
            )),
{
    let cells = g.cells@;
    let max = g.max_health as int;
    let r = visible_instances(cells, max);
    extracted_instances_are_the_visible_cells(cells, max);
    assert forall|i: int| 0 <= i < cells.len() implies ((#[trigger] cells[i]).health >= 0
        <==> drawn_at(r, cells[i].x, cells[i].y, cells[i].z)) by {
        if cells[i].health >= 0 {
            assert(r.contains(instance_of(cells[i], max)));
        } else if drawn_at(r, cells[i].x, cells[i].y, cells[i].z) {
            let j = choose|j: int|
                0 <= j < r.len() && (#[trigger] r[j]).x == cells[i].x && r[j].y == cells[i].y
                    && r[j].z == cells[i].z;
            let i2 = choose|i2: int|
                0 <= i2 < cells.len() && cells[i2].health >= 0 && #[trigger] r[j] == instance_of(
                    cells[i2],
                    max,
                );
            assert(g.cell_ok(i));
            assert(g.cell_ok(i2));
        }
    }
}

/// An offset other than the centre moves to a different point.
proof fn offset_is_not_zero(j: int)
    requires
        0 <= j < OFFSET_COUNT,
        j != CENTER_OFFSET,
    ensures
        offset_x(j) != 0 || offset_y(j) != 0 || offset_z(j) != 0,
{
}

/// The neighbour count never looks at the cell itself: two states that
/// agree everywhere in the lattice but at `(x, y, z)` give it the same count.
pub proof fn neighbor_count_ignores_the_cell_itself(
    h1: Seq<i64>,
    h2: Seq<i64>,
    n: int,
    max: int,
    x: int,
    y: int,
    z: int,
)
    requires
        forall|a: int, b: int, c: int|
            in_bounds(n, a, b, c) && !(a == x && b == y && c == z) ==> h1[index_of(n, a, b, c)]
                == #[trigger] h2[index_of(n, a, b, c)],
    ensures
        neighbor_count(h1, n, max, x, y, z) == neighbor_count(h2, n, max, x, y, z),
{
    neighbors_below_agree(h1, h2, n, max, x, y, z, OFFSET_COUNT as nat);
}

proof fn neighbors_below_agree(
    h1: Seq<i64>,
    h2: Seq<i64>,
    n: int,
    max: int,
    x: int,
    y: int,
    z: int,
    k: nat,
)
    requires
        k <= OFFSET_COUNT,
        forall|a: int, b: int, c: int|
            in_bounds(n, a, b, c) && !(a == x && b == y && c == z) ==> h1[index_of(n, a, b, c)]
                == #[trigger] h2[index_of(n, a, b, c)],
    ensures
        neighbors_below(h1, n, max, x, y, z, k) == neighbors_below(h2, n, max, x, y, z, k),
    decreases k,
{
    if k > 0 {
        let j = k - 1;
        neighbors_below_agree(h1, h2, n, max, x, y, z, (k - 1) as nat);
        if j != CENTER_OFFSET {
            offset_is_not_zero(j);
            let (a, b, c) = (x + offset_x(j), y + offset_y(j), z + offset_z(j));
            if in_bounds(n, a, b, c) {
                assert(h1[index_of(n, a, b, c)] == h2[index_of(n, a, b, c)]);
            }
        }
    }
}

proof fn neighbors_below_within_bounds(h: Seq<i64>, n: int, max: int, x: int, y: int, z: int, k: nat)
    ensures
        neighbors_below(h, n, max, x, y, z, k) <= in_bounds_below(n, x, y, z, k),
    decreases k,
{
    if k > 0 {
        neighbors_below_within_bounds(h, n, max, x, y, z, (k - 1) as nat);
    }
}

/// Only neighbours inside the lattice are counted: nothing wraps around.
pub proof fn neighbor_count_within_bounds(h: Seq<i64>, n: int, max: int, x: int, y: int, z: int)
    ensures
        neighbor_count(h, n, max, x, y, z) <= in_bounds_count(n, x, y, z),
{
    neighbors_below_within_bounds(h, n, max, x, y, z, OFFSET_COUNT as nat);
}

/// A corner of the lattice has at most seven neighbours inside it, and
/// exactly seven once the side is at least two.
pub proof fn corner_has_at_most_seven_neighbors(n: int)
    requires
        n >= 1,
    ensures
        in_bounds_count(n, 0, 0, 0) <= 7,
        n >= 2 ==> in_bounds_count(n, 0, 0, 0) == 7,
{
    reveal_with_fuel(in_bounds_below, 28);
}

/// So the count of alive neighbours of a corner cell is at most seven.
pub proof fn corner_neighbor_count_at_most_seven(h: Seq<i64>, n: int, max: int)
    requires
        n >= 1,
    ensures
        neighbor_count(h, n, max, 0, 0, 0) <= 7,
{
    neighbor_count_within_bounds(h, n, max, 0, 0, 0);
    corner_has_at_most_seven_neighbors(n);
}

} // verus!
