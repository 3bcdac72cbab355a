use boids::hashing::{hash, CellCoord, PRIME_X, PRIME_Y};

#[test]
fn hash_of_origin_is_zero() {
    assert_eq!(hash(CellCoord { x: 0, y: 0 }, 1000), 0);
}

#[test]
fn hash_multiplies_each_coordinate_by_its_prime() {
    assert_eq!(hash(CellCoord { x: 1, y: 0 }, 1000), PRIME_X % 1000);
    assert_eq!(hash(CellCoord { x: 0, y: 1 }, 1000), PRIME_Y % 1000);
    assert_eq!(hash(CellCoord { x: 1, y: 0 }, 1000), 93);
    assert_eq!(hash(CellCoord { x: 0, y: 1 }, 1000), 663);
}

#[test]
fn hash_combines_the_products_by_xor() {
    assert_eq!(hash(CellCoord { x: 1, y: 2 }, 1000), 787);
    assert_eq!(hash(CellCoord { x: 12, y: 7 }, 1000), 469);
    assert_eq!(hash(CellCoord { x: 20, y: 10 }, 1000), 378);
    assert_eq!(hash(CellCoord { x: 3, y: 7 }, 4096), 2382);
    assert_eq!(hash(CellCoord { x: 100000, y: 3 }, 997), 309);
}

#[test]
fn hash_wraps_products_that_overflow() {
    assert_eq!(hash(CellCoord { x: u32::MAX, y: u32::MAX }, 1000), 194);
}

#[test]
fn hash_stays_below_the_table_size() {
    for x in 0..40u32 {
        for y in 0..40u32 {
            assert!(hash(CellCoord { x, y }, 17) < 17);
        }
    }
    assert_eq!(hash(CellCoord { x: 12, y: 7 }, 1), 0);
}

#[test]
fn hash_is_the_same_for_the_same_cell() {
    let a = CellCoord { x: 12, y: 7 };
    let b = CellCoord { x: 12, y: 7 };
    assert_eq!(hash(a, 1000), hash(b, 1000));
    assert_eq!(hash(a, 1000), hash(a, 1000));
}

#[test]
fn hash_tells_columns_from_rows() {
    assert_ne!(hash(CellCoord { x: 1, y: 2 }, 1000), hash(CellCoord { x: 2, y: 1 }, 1000));
}
