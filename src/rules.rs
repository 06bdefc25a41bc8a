use vstd::prelude::*;

verus! {

/// Number of neighbour counts a rule table covers: every count from 0 to 26.
pub const RULE_LEN: usize = 27;

/// The largest number of neighbours a cell can have in a 26-connected lattice.
pub const MAX_NEIGHBORS: u32 = 26;

/// A configuration that cannot make a simulation.
#[derive(Clone, Copy, Debug, PartialEq, Eq, Structural)]
pub enum ConfigError {
    /// The grid's side length is zero.
    EmptyGrid,
    /// The survival table does not have one entry per neighbour count.
    SurvivalLength,
    /// The spawn table does not have one entry per neighbour count.
    SpawnLength,
}

/// The two lookup tables of the automaton, indexed by neighbour count.
///
/// `survival[n]` decides whether a fully alive cell with `n` alive
/// neighbours stays fully alive; `spawn[n]` decides whether a dead cell with
/// `n` alive neighbours comes alive.
#[derive(Clone, Debug)]
pub struct RuleTable {
    pub survival: Vec<bool>,
    pub spawn: Vec<bool>,
}

impl RuleTable {
    /// Both tables cover every neighbour count.
    pub open spec fn wf(&self) -> bool {
        &&& self.survival@.len() == RULE_LEN
        &&& self.spawn@.len() == RULE_LEN
    }

    pub open spec fn survives_spec(&self, n: int) -> bool {
        self.survival@[n]
    }

    pub open spec fn spawns_spec(&self, n: int) -> bool {
        self.spawn@[n]
    }

    /// Builds a rule table from its two columns, refusing a column that does
    /// not hold exactly one entry per neighbour count.
    pub fn new(survival: Vec<bool>, spawn: Vec<bool>) -> (r: Result<RuleTable, ConfigError>)
        ensures
            survival@.len() != RULE_LEN ==> r == Err::<RuleTable, ConfigError>(
                ConfigError::SurvivalLength,
            ),
            survival@.len() == RULE_LEN && spawn@.len() != RULE_LEN ==> r == Err::<
                RuleTable,
                ConfigError,
            >(ConfigError::SpawnLength),
            (r is Ok) == (survival@.len() == RULE_LEN && spawn@.len() == RULE_LEN),
            r matches Ok(t) ==> (t.wf() && t.survival@ == survival@ && t.spawn@ == spawn@),
    {
        if survival.len() != RULE_LEN {
            Err(ConfigError::SurvivalLength)
        } else if spawn.len() != RULE_LEN {
            Err(ConfigError::SpawnLength)
        } else {
            Ok(RuleTable { survival, spawn })
        }
    }

    /// The rule this automaton is tuned for: survive with 2, 6 or 9 alive
    /// neighbours, come alive with 4, 6, 8 or 9.
    pub fn standard() -> (r: RuleTable)
        ensures
            r.wf(),
            forall|n: int| 0 <= n < RULE_LEN ==> #[trigger] r.survival@[n] == (n == 2 || n == 6 || n == 9),
            forall|n: int| 0 <= n < RULE_LEN ==> #[trigger] r.spawn@[n] == (n == 4 || n == 6 || n == 8 || n == 9),
    {
        let mut survival: Vec<bool> = Vec::new();
        let mut spawn: Vec<bool> = Vec::new();
        let mut n: usize = 0;
        while n < RULE_LEN
            invariant
                n <= RULE_LEN,
                survival@.len() == n,
                spawn@.len() == n,
                forall|k: int| 0 <= k < n ==> #[trigger] survival@[k] == (k == 2 || k == 6 || k == 9),
                forall|k: int| 0 <= k < n ==> #[trigger] spawn@[k] == (k == 4 || k == 6 || k == 8 || k == 9),
            decreases RULE_LEN - n,
        {
            survival.push(n == 2 || n == 6 || n == 9);
            spawn.push(n == 4 || n == 6 || n == 8 || n == 9);
            n = n + 1;
        }
        RuleTable { survival, spawn }
    }

    /// Whether a fully alive cell with `n` alive neighbours stays fully alive.
    pub fn survives(&self, n: u32) -> (r: bool)
        requires
            self.wf(),
            n <= MAX_NEIGHBORS,
        ensures
            r == self.survives_spec(n as int),
    {
        self.survival[n as usize]
    }

    /// Whether a dead cell with `n` alive neighbours comes alive.
    pub fn spawns(&self, n: u32) -> (r: bool)
        requires
            self.wf(),
            n <= MAX_NEIGHBORS,
        ensures
            r == self.spawns_spec(n as int),
    {
        self.spawn[n as usize]
    }
}

} // verus!
