use boids::grid::SpatialGrid;
use boids::hashing::{hash, CellCoord};

fn cell_of(x: f32, y: f32, cell_size: u32) -> CellCoord {
    CellCoord {
        x: (x / cell_size as f32).floor() as u32,
        y: (y / cell_size as f32).floor() as u32,
    }
}

#[test]
fn grid_of_no_agents_has_no_bucket() {
    let grid = SpatialGrid::build(&Vec::new(), 1000);
    assert!(grid.occupied().is_empty());
    assert!(grid.bucket(0).is_none());
}

#[test]
fn grid_lists_members_by_ascending_index() {
    let a = CellCoord { x: 1, y: 2 };
    let b = CellCoord { x: 12, y: 7 };
    let cells = vec![a, b, a, a, b];
    let grid = SpatialGrid::build(&cells, 1000);
    assert_eq!(grid.bucket(787), Some(&vec![0, 2, 3]));
    assert_eq!(grid.bucket(469), Some(&vec![1, 4]));
}

#[test]
fn grid_has_buckets_for_occupied_cells_only() {
    let cells = vec![CellCoord { x: 1, y: 2 }, CellCoord { x: 12, y: 7 }, CellCoord { x: 1, y: 2 }];
    let grid = SpatialGrid::build(&cells, 1000);
    let mut occupied = grid.occupied();
    occupied.sort();
    assert_eq!(occupied, vec![469, 787]);
    assert!(grid.bucket(0).is_none());
    assert!(grid.bucket(788).is_none());
    for id in occupied {
        assert!(!grid.bucket(id).unwrap().is_empty());
    }
}

#[test]
fn grid_holds_each_agent_in_exactly_one_bucket() {
    let mut cells = Vec::new();
    for i in 0..200u32 {
        cells.push(CellCoord { x: (i * 7) % 13, y: (i * 11) % 5 });
    }
    let grid = SpatialGrid::build(&cells, 64);
    let mut seen = vec![0usize; cells.len()];
    for id in grid.occupied() {
        for agent in grid.bucket(id).unwrap() {
            assert_eq!(hash(cells[*agent], 64), id);
            seen[*agent] += 1;
        }
    }
    assert!(seen.iter().all(|times| *times == 1));
}

#[test]
fn grid_puts_agents_of_one_cell_in_one_bucket() {
    let cells = vec![cell_of(0.0, 0.0, 100), cell_of(10.0, 0.0, 100), cell_of(250.0, 30.0, 100)];
    assert_eq!(cells[0], cells[1]);
    let grid = SpatialGrid::build(&cells, 1000);
    let id = hash(cells[0], 1000);
    assert_eq!(grid.bucket(id), Some(&vec![0, 1]));
    assert_eq!(grid.bucket(hash(cells[2], 1000)), Some(&vec![2]));
}

#[test]
fn grid_with_one_slot_has_one_bucket() {
    let cells = vec![CellCoord { x: 0, y: 0 }, CellCoord { x: 5, y: 9 }, CellCoord { x: 70, y: 3 }];
    let grid = SpatialGrid::build(&cells, 1);
    assert_eq!(grid.occupied(), vec![0]);
    assert_eq!(grid.bucket(0), Some(&vec![0, 1, 2]));
}

#[test]
fn grid_folds_colliding_cells_into_one_bucket() {
    let near = CellCoord { x: 0, y: 0 };
    let mut far = None;
    for x in 1..10_000u32 {
        let cell = CellCoord { x, y: 0 };
        if hash(cell, 10) == hash(near, 10) {
            far = Some(cell);
            break;
        }
    }
    let far = far.unwrap();
    let grid = SpatialGrid::build(&vec![near, far], 10);
    assert_eq!(grid.bucket(0), Some(&vec![0, 1]));
    let wide = SpatialGrid::build(&vec![near, far], 1_000_003);
    assert_eq!(wide.bucket(0), Some(&vec![0]));
}

#[test]
fn grid_of_a_lone_agent_is_a_bucket_of_one() {
    let cells = vec![CellCoord { x: 4, y: 4 }];
    let grid = SpatialGrid::build(&cells, 1000);
    let id = hash(cells[0], 1000);
    assert_eq!(grid.occupied(), vec![id]);
    assert_eq!(grid.bucket(id), Some(&vec![0]));
}
