use cellular_automata::cell::{Cell, CellColor, Instance};
use cellular_automata::grid::Grid;
use cellular_automata::rules::{ConfigError, RuleTable, MAX_NEIGHBORS, RULE_LEN};
use cellular_automata::seed::{in_seed_range, CHANCE_SCALE};

fn column(value: bool) -> Vec<bool> {
    vec![value; RULE_LEN]
}

fn column_with(value: bool, at: &[usize]) -> Vec<bool> {
    let mut c = vec![!value; RULE_LEN];
    for &i in at {
        c[i] = value;
    }
    c
}

fn grid(size: u32, max_health: u32, survival: Vec<bool>, spawn: Vec<bool>) -> Grid {
    Grid::new(size, max_health, survival, spawn).unwrap()
}

fn count_health(g: &Grid, health: i64) -> usize {
    g.cells.iter().filter(|c| c.health == health).count()
}

#[test]
fn rule_table_rejects_wrong_lengths() {
    assert_eq!(
        RuleTable::new(vec![false; 26], column(false)).unwrap_err(),
        ConfigError::SurvivalLength
    );
    assert_eq!(
        RuleTable::new(column(false), vec![false; 28]).unwrap_err(),
        ConfigError::SpawnLength
    );
    assert_eq!(
        RuleTable::new(vec![], vec![]).unwrap_err(),
        ConfigError::SurvivalLength
    );
    let t = RuleTable::new(column(true), column(false)).unwrap();
    assert!(t.survives(0) && t.survives(MAX_NEIGHBORS));
    assert!(!t.spawns(0) && !t.spawns(MAX_NEIGHBORS));
}

#[test]
fn standard_rule_table_values() {
    let t = RuleTable::standard();
    let survive: Vec<u32> = (0..=MAX_NEIGHBORS).filter(|&n| t.survives(n)).collect();
    let spawn: Vec<u32> = (0..=MAX_NEIGHBORS).filter(|&n| t.spawns(n)).collect();
    assert_eq!(survive, vec![2, 6, 9]);
    assert_eq!(spawn, vec![4, 6, 8, 9]);
}

#[test]
fn grid_rejects_bad_configuration() {
    assert_eq!(
        Grid::new(0, 10, column(false), column(false)).unwrap_err(),
        ConfigError::EmptyGrid
    );
    assert_eq!(
        Grid::new(0, 10, vec![], vec![]).unwrap_err(),
        ConfigError::EmptyGrid
    );
    assert_eq!(
        Grid::new(3, 10, vec![true; 5], column(false)).unwrap_err(),
        ConfigError::SurvivalLength
    );
    assert_eq!(
        Grid::new(3, 10, column(false), vec![true; 30]).unwrap_err(),
        ConfigError::SpawnLength
    );
}

#[test]
fn new_grid_is_all_dead_and_row_major() {
    let g = grid(4, 10, column(false), column(false));
    assert_eq!(g.cells.len(), 64);
    assert_eq!(count_health(&g, -1), 64);
    for x in 0..4u32 {
        for y in 0..4u32 {
            for z in 0..4u32 {
                let i = g.index(x, y, z);
                assert_eq!(i, (z + y * 4 + x * 16) as usize);
                let c = g.cells[i];
                assert_eq!((c.x, c.y, c.z), (x, y, z));
                assert_eq!(g.health(x, y, z), -1);
            }
        }
    }
    assert!(g.extract_instances().is_empty());
}

#[test]
fn valid_idx_checks_every_axis() {
    let g = grid(4, 10, column(false), column(false));
    assert!(g.valid_idx(0, 0, 0, 1, 1, 1));
    assert!(!g.valid_idx(0, 0, 0, -1, 0, 0));
    assert!(!g.valid_idx(0, 0, 0, 0, -1, 0));
    assert!(!g.valid_idx(0, 0, 0, 0, 0, -1));
    assert!(!g.valid_idx(3, 2, 2, 1, 0, 0));
    assert!(!g.valid_idx(2, 3, 2, 0, 1, 0));
    assert!(!g.valid_idx(2, 2, 3, 0, 0, 1));
    assert!(g.valid_idx(3, 3, 3, -1, -1, -1));
}

#[test]
fn alive_cell_that_survives_stays_alive() {
    let rules = RuleTable::new(column_with(true, &[3]), column(false)).unwrap();
    let mut c = Cell::new(0, 0, 0, 10);
    c.neighbors = 3;
    c.sync(10, &rules);
    assert_eq!(c.health, 10);
    assert_eq!(c.neighbors, 3);
}

#[test]
fn alive_cell_that_does_not_survive_starts_dying() {
    let rules = RuleTable::new(column_with(true, &[3]), column(true)).unwrap();
    let mut c = Cell::new(1, 2, 3, 10);
    c.neighbors = 4;
    c.sync(10, &rules);
    assert_eq!(c.health, 9);
    assert_eq!((c.x, c.y, c.z), (1, 2, 3));
}

#[test]
fn alive_cell_with_zero_max_health_dies_at_once() {
    let rules = RuleTable::new(column(false), column(false)).unwrap();
    let mut c = Cell::new(0, 0, 0, 0);
    c.sync(0, &rules);
    assert_eq!(c.health, -1);
}

#[test]
fn dying_cell_ignores_the_rules() {
    for survive in [false, true] {
        for spawn in [false, true] {
            let rules = RuleTable::new(column(survive), column(spawn)).unwrap();
            for n in 0..=MAX_NEIGHBORS {
                let mut c = Cell::new(0, 0, 0, 5);
                c.neighbors = n;
                c.sync(10, &rules);
                assert_eq!(c.health, 4);
                let mut d = Cell::new(0, 0, 0, 0);
                d.neighbors = n;
                d.sync(10, &rules);
                assert_eq!(d.health, -1);
            }
        }
    }
}

#[test]
fn dead_cell_spawns_by_the_rule() {
    let rules = RuleTable::new(column(false), column_with(true, &[4, 6])).unwrap();
    for n in 0..=MAX_NEIGHBORS {
        let mut c = Cell::new(0, 0, 0, -1);
        c.neighbors = n;
        c.sync(10, &rules);
        if n == 4 || n == 6 {
            assert_eq!(c.health, 10);
        } else {
            assert_eq!(c.health, -1);
        }
    }
}

#[test]
fn cell_colors() {
    assert_eq!(Cell::new(0, 0, 0, 10).color(10), CellColor::Highlight);
    assert_eq!(
        Cell::new(0, 0, 0, 4).color(10),
        CellColor::Gray { level: 5, scale: 12 }
    );
    assert_eq!(
        Cell::new(0, 0, 0, 0).color(10),
        CellColor::Gray { level: 1, scale: 12 }
    );
    assert_eq!(
        Cell::new(0, 0, 0, -1).color(10),
        CellColor::Gray { level: 0, scale: 12 }
    );
    assert!(Cell::new(0, 0, 0, 10).is_alive(10));
    assert!(!Cell::new(0, 0, 0, 9).is_alive(10));
    assert!(Cell::new(0, 0, 0, 0).is_visible());
    assert!(!Cell::new(0, 0, 0, -1).is_visible());
    assert_eq!(
        Cell::new(3, 1, 2, 9).create_instance(10),
        Instance { x: 3, y: 1, z: 2, color: CellColor::Gray { level: 10, scale: 12 } }
    );
}

#[test]
fn corner_cell_has_at_most_seven_neighbors() {
    let mut g = grid(4, 1, column(false), column(false));
    for x in 0..4 {
        for y in 0..4 {
            for z in 0..4 {
                g.set_health(x, y, z, 1);
            }
        }
    }
    assert_eq!(g.neighbor_count(0, 0, 0), 7);
    assert_eq!(g.neighbor_count(3, 3, 3), 7);
    assert_eq!(g.neighbor_count(0, 1, 1), 17);
    assert_eq!(g.neighbor_count(1, 1, 1), 26);
    assert_eq!(g.neighbor_count(0, 0, 1), 11);
}

#[test]
fn neighbor_count_leaves_out_the_cell_itself() {
    let mut g = grid(3, 2, column(false), column(false));
    g.set_health(1, 1, 1, 2);
    assert_eq!(g.neighbor_count(1, 1, 1), 0);
    assert_eq!(g.neighbor_count(0, 0, 0), 1);
    assert_eq!(g.neighbor_count(2, 1, 0), 1);
    g.set_health(0, 0, 0, 1);
    assert_eq!(g.neighbor_count(1, 1, 1), 0);
    assert_eq!(g.neighbor_count(0, 1, 0), 1);
}

#[test]
fn count_neighbors_fills_every_cell() {
    let mut g = grid(3, 2, column(false), column(false));
    g.set_health(0, 0, 0, 2);
    g.set_health(2, 2, 2, 2);
    g.count_neighbors();
    assert_eq!(g.cells[g.index(1, 1, 1)].neighbors, 2);
    assert_eq!(g.cells[g.index(0, 0, 0)].neighbors, 0);
    assert_eq!(g.cells[g.index(1, 0, 0)].neighbors, 1);
    assert_eq!(g.cells[g.index(2, 2, 1)].neighbors, 1);
    assert_eq!(g.health(0, 0, 0), 2);
}

#[test]
fn single_center_cell_dies_out() {
    let mut g = grid(3, 1, column(false), column(false));
    g.set_health(1, 1, 1, 1);
    assert_eq!(g.extract_instances().len(), 1);
    g.tick();
    assert_eq!(g.health(1, 1, 1), 0);
    let instances = g.extract_instances();
    assert_eq!(instances.len(), 1);
    assert_eq!(
        instances[0],
        Instance { x: 1, y: 1, z: 1, color: CellColor::Gray { level: 1, scale: 3 } }
    );
    g.tick();
    assert_eq!(g.health(1, 1, 1), -1);
    assert_eq!(g.extract_instances().len(), 0);
    assert_eq!(count_health(&g, -1), 27);
}

#[test]
fn isolated_cell_starts_dying_without_survival_at_zero() {
    let mut g = grid(5, 10, column_with(true, &[1, 2, 3]), column(false));
    g.set_health(2, 2, 2, 10);
    g.tick();
    assert_eq!(g.health(2, 2, 2), 9);
    assert_eq!(g.cells[g.index(2, 2, 2)].neighbors, 0);
}

#[test]
fn stable_configuration_stays_static() {
    // A 2x2x2 block: each of its cells has exactly seven alive neighbours.
    let mut g = grid(4, 5, column_with(true, &[7]), column(false));
    for x in 1..3 {
        for y in 1..3 {
            for z in 1..3 {
                g.set_health(x, y, z, 5);
            }
        }
    }
    let before: Vec<i64> = g.cells.iter().map(|c| c.health).collect();
    for _ in 0..4 {
        g.tick();
        let after: Vec<i64> = g.cells.iter().map(|c| c.health).collect();
        assert_eq!(after, before);
    }
    assert_eq!(g.extract_instances().len(), 8);
}

#[test]
fn counts_come_from_the_previous_tick() {
    // Spawn on one neighbour: a lone alive cell lights up all 26 around it
    // in one tick, and not the cells two steps away.
    let mut g = grid(5, 3, column(false), column_with(true, &[1]));
    g.set_health(2, 2, 2, 3);
    g.tick();
    assert_eq!(g.health(2, 2, 2), 2);
    assert_eq!(count_health(&g, 3), 26);
    assert_eq!(g.health(0, 0, 0), -1);
    assert_eq!(g.health(1, 1, 1), 3);
}

#[test]
fn tick_keeps_cells_and_health_range() {
    let mut g = grid(6, 4, RuleTable::standard().survival, RuleTable::standard().spawn);
    let draws: Vec<u32> = (0..216u32).map(|i| (i * 37) % CHANCE_SCALE).collect();
    g.seed_with_draws(&draws, 600);
    let positions: Vec<(u32, u32, u32)> = g.cells.iter().map(|c| (c.x, c.y, c.z)).collect();
    for _ in 0..12 {
        g.tick();
        assert_eq!(g.cells.len(), 216);
        let now: Vec<(u32, u32, u32)> = g.cells.iter().map(|c| (c.x, c.y, c.z)).collect();
        assert_eq!(now, positions);
        for c in &g.cells {
            assert!(c.health == -1 || (0..=4).contains(&c.health));
            assert!(c.neighbors <= MAX_NEIGHBORS);
        }
    }
}

#[test]
fn extract_skips_dead_and_keeps_dying() {
    let mut g = grid(3, 4, column(false), column(false));
    g.set_health(0, 0, 1, 4);
    g.set_health(1, 0, 0, 0);
    g.set_health(2, 2, 2, 2);
    let instances = g.extract_instances();
    assert_eq!(
        instances,
        vec![
            Instance { x: 0, y: 0, z: 1, color: CellColor::Highlight },
            Instance { x: 1, y: 0, z: 0, color: CellColor::Gray { level: 1, scale: 6 } },
            Instance { x: 2, y: 2, z: 2, color: CellColor::Gray { level: 3, scale: 6 } },
        ]
    );
    let visible = g.cells.iter().filter(|c| c.health >= 0).count();
    assert_eq!(instances.len(), visible);
    assert_eq!(g.extract_instances(), instances);
}

#[test]
fn seed_range_is_the_middle_third() {
    let inside: Vec<u32> = (0..9).filter(|&c| in_seed_range(9, c)).collect();
    assert_eq!(inside, vec![3, 4, 5, 6]);
    let inside: Vec<u32> = (0..50).filter(|&c| in_seed_range(50, c)).collect();
    assert_eq!(inside, (16..=33).collect::<Vec<u32>>());
    assert!(in_seed_range(u32::MAX, u32::MAX / 3 * 2));
}

#[test]
fn seed_with_draws_is_exact() {
    let mut g = grid(3, 7, column(false), column(false));
    let mut draws = vec![0u32; 27];
    draws[g.index(1, 1, 1)] = 500;
    g.seed_with_draws(&draws, 400);
    // In a lattice of side 3 the middle third runs from 1 to 2.
    for c in &g.cells {
        let central = c.x >= 1 && c.y >= 1 && c.z >= 1;
        let expected = if central && (c.x, c.y, c.z) != (1, 1, 1) { 7 } else { -1 };
        assert_eq!(c.health, expected);
    }
}

#[test]
fn seed_random_stays_in_the_central_region() {
    let mut g = grid(9, 3, column(false), column(false));
    g.seed_random(CHANCE_SCALE);
    for c in &g.cells {
        let central = [c.x, c.y, c.z].iter().all(|&v| (3..=6).contains(&v));
        assert_eq!(c.health, if central { 3 } else { -1 });
    }
    let mut h = grid(9, 3, column(false), column(false));
    h.seed_random(0);
    assert_eq!(count_health(&h, -1), 729);
    let mut k = grid(9, 3, column(false), column(false));
    k.seed_random(CHANCE_SCALE / 2);
    assert!(count_health(&k, 3) <= 64);
    assert_eq!(count_health(&k, 3) + count_health(&k, -1), 729);
}
