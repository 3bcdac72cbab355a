//! Simulation parameters, checked once when the simulation is set up.

use vstd::prelude::*;

verus! {

/// Extent of the world along each axis, in whole world units.
#[derive(Clone, Copy, Debug, PartialEq, Eq, Structural)]
pub struct WorldBounds {
    pub width: u32,
    pub height: u32,
}

/// Why a set of parameters was turned down.
#[derive(Clone, Copy, Debug, PartialEq, Eq, Structural)]
pub enum ConfigError {
    /// The population is empty.
    NoAgents,
    /// Grid cells have no extent.
    ZeroCellSize,
    /// The hash table has no slot.
    ZeroTableSize,
    /// The world has no extent along one axis.
    EmptyWorld,
}

/// The first rule that the parameters break, if any. The rules are tried in
/// the order of the arguments.
pub open spec fn config_fault(
    agent_count: usize,
    cell_size: u32,
    table_size: u32,
    bounds: WorldBounds,
) -> Option<ConfigError> {
    if agent_count == 0 {
        Some(ConfigError::NoAgents)
    } else if cell_size == 0 {
        Some(ConfigError::ZeroCellSize)
    } else if table_size == 0 {
        Some(ConfigError::ZeroTableSize)
    } else if bounds.width == 0 || bounds.height == 0 {
        Some(ConfigError::EmptyWorld)
    } else {
        None
    }
}

/// Parameters of a run. The population size, the cell size and the table
/// size are fixed for the run; the world bounds follow the display.
///
/// The table size is chosen on its own and not tied to the population: with
/// few agents a table as small as the population folds distant cells into
/// one bucket.
#[derive(Clone, Copy, Debug)]
pub struct SimulationConfig {
    agent_count: usize,
    cell_size: u32,
    table_size: u32,
    bounds: WorldBounds,
}

impl SimulationConfig {
    #[verifier::type_invariant]
    spec fn valid(self) -> bool {
        config_fault(self.agent_count, self.cell_size, self.table_size, self.bounds) is None
    }

    /// Number of agents.
    pub closed spec fn spec_agent_count(&self) -> usize {
        self.agent_count
    }

    /// Edge length of a grid cell, in world units.
    pub closed spec fn spec_cell_size(&self) -> u32 {
        self.cell_size
    }

    /// Number of slots of the spatial hash table.
    pub closed spec fn spec_table_size(&self) -> u32 {
        self.table_size
    }

    /// Current world bounds.
    pub closed spec fn spec_bounds(&self) -> WorldBounds {
        self.bounds
    }

    /// Checks the parameters and keeps them. Fails with the first broken
    /// rule: no agent, a cell size of zero, a table size of zero, a world
    /// without extent.
    pub fn new(agent_count: usize, cell_size: u32, table_size: u32, bounds: WorldBounds) -> (made:
        Result<SimulationConfig, ConfigError>)
        ensures
            match made {
                Ok(config) => {
                    &&& config_fault(agent_count, cell_size, table_size, bounds) is None
                    &&& config.spec_agent_count() == agent_count
                    &&& config.spec_cell_size() == cell_size
                    &&& config.spec_table_size() == table_size
                    &&& config.spec_bounds() == bounds
                },
                Err(fault) => config_fault(agent_count, cell_size, table_size, bounds) == Some(
                    fault,
                ),
            },
    {
        if agent_count == 0 {
            Err(ConfigError::NoAgents)
        } else if cell_size == 0 {
            Err(ConfigError::ZeroCellSize)
        } else if table_size == 0 {
            Err(ConfigError::ZeroTableSize)
        } else if bounds.width == 0 || bounds.height == 0 {
            Err(ConfigError::EmptyWorld)
        } else {
            Ok(SimulationConfig { agent_count, cell_size, table_size, bounds })
        }
    }

    /// Number of agents; never zero.
    #[verifier::when_used_as_spec(spec_agent_count)]
    pub fn agent_count(&self) -> (count: usize)
        ensures
            count == self.spec_agent_count(),
            count > 0,
    {
        proof {
            use_type_invariant(self);
        }
        self.agent_count
    }

    /// Edge length of a grid cell; never zero.
    #[verifier::when_used_as_spec(spec_cell_size)]
    pub fn cell_size(&self) -> (size: u32)
        ensures
            size == self.spec_cell_size(),
            size > 0,
    {
        proof {
            use_type_invariant(self);
        }
        self.cell_size
    }

    /// Number of slots of the spatial hash table; never zero.
    #[verifier::when_used_as_spec(spec_table_size)]
    pub fn table_size(&self) -> (size: u32)
        ensures
            size == self.spec_table_size(),
            size > 0,
    {
        proof {
            use_type_invariant(self);
        }
        self.table_size
    }

    /// Current world bounds; neither extent is zero.
    #[verifier::when_used_as_spec(spec_bounds)]
    pub fn bounds(&self) -> (bounds: WorldBounds)
        ensures
            bounds == self.spec_bounds(),
            bounds.width > 0,
            bounds.height > 0,
    {
        proof {
            use_type_invariant(self);
        }
        self.bounds
    }

    /// Takes over new world bounds, as after the display was resized. Bounds
    /// without extent are turned down and the old ones stay. Nothing else
    /// changes either way.
    pub fn resize(&mut self, bounds: WorldBounds) -> (done: Result<(), ConfigError>)
        ensures
            final(self).spec_agent_count() == old(self).spec_agent_count(),
            final(self).spec_cell_size() == old(self).spec_cell_size(),
            final(self).spec_table_size() == old(self).spec_table_size(),
            match done {
                Ok(_) => bounds.width > 0 && bounds.height > 0 && final(self).spec_bounds()
                    == bounds,
                Err(fault) => (bounds.width == 0 || bounds.height == 0) && fault
                    == ConfigError::EmptyWorld && final(self).spec_bounds() == old(
                    self,
                ).spec_bounds(),
            },
    {
        if bounds.width == 0 || bounds.height == 0 {
            Err(ConfigError::EmptyWorld)
        } else {
            proof {
                use_type_invariant(&*self);
            }
            self.bounds = bounds;
            Ok(())
        }
    }
}

} // verus!
