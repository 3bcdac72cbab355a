use boids::config::{ConfigError, SimulationConfig, WorldBounds};

const WORLD: WorldBounds = WorldBounds { width: 1280, height: 720 };

#[test]
fn config_keeps_valid_parameters() {
    let config = SimulationConfig::new(1000, 100, 4099, WORLD).unwrap();
    assert_eq!(config.agent_count(), 1000);
    assert_eq!(config.cell_size(), 100);
    assert_eq!(config.table_size(), 4099);
    assert_eq!(config.bounds(), WORLD);
}

#[test]
fn config_rejects_an_empty_population() {
    assert_eq!(SimulationConfig::new(0, 100, 4099, WORLD).err(), Some(ConfigError::NoAgents));
}

#[test]
fn config_rejects_a_cell_size_of_zero() {
    assert_eq!(SimulationConfig::new(1000, 0, 4099, WORLD).err(), Some(ConfigError::ZeroCellSize));
}

#[test]
fn config_rejects_a_table_size_of_zero() {
    assert_eq!(SimulationConfig::new(1000, 100, 0, WORLD).err(), Some(ConfigError::ZeroTableSize));
}

#[test]
fn config_rejects_a_world_without_extent() {
    let flat = WorldBounds { width: 1280, height: 0 };
    let thin = WorldBounds { width: 0, height: 720 };
    assert_eq!(SimulationConfig::new(1000, 100, 4099, flat).err(), Some(ConfigError::EmptyWorld));
    assert_eq!(SimulationConfig::new(1000, 100, 4099, thin).err(), Some(ConfigError::EmptyWorld));
}

#[test]
fn config_reports_the_first_broken_rule() {
    let none = WorldBounds { width: 0, height: 0 };
    assert_eq!(SimulationConfig::new(0, 0, 0, none).err(), Some(ConfigError::NoAgents));
    assert_eq!(SimulationConfig::new(1, 0, 0, none).err(), Some(ConfigError::ZeroCellSize));
    assert_eq!(SimulationConfig::new(1, 1, 0, none).err(), Some(ConfigError::ZeroTableSize));
    assert_eq!(SimulationConfig::new(1, 1, 1, none).err(), Some(ConfigError::EmptyWorld));
}

#[test]
fn config_takes_the_smallest_valid_parameters() {
    let config = SimulationConfig::new(1, 1, 1, WorldBounds { width: 1, height: 1 }).unwrap();
    assert_eq!(config.agent_count(), 1);
    assert_eq!(config.table_size(), 1);
}

#[test]
fn config_resize_takes_over_new_bounds() {
    let mut config = SimulationConfig::new(1000, 100, 4099, WORLD).unwrap();
    let wider = WorldBounds { width: 1920, height: 1080 };
    assert_eq!(config.resize(wider), Ok(()));
    assert_eq!(config.bounds(), wider);
    assert_eq!(config.agent_count(), 1000);
    assert_eq!(config.cell_size(), 100);
    assert_eq!(config.table_size(), 4099);
}

#[test]
fn config_resize_rejects_bounds_without_extent() {
    let mut config = SimulationConfig::new(1000, 100, 4099, WORLD).unwrap();
    assert_eq!(config.resize(WorldBounds { width: 0, height: 600 }), Err(ConfigError::EmptyWorld));
    assert_eq!(config.resize(WorldBounds { width: 800, height: 0 }), Err(ConfigError::EmptyWorld));
    assert_eq!(config.bounds(), WORLD);
}
