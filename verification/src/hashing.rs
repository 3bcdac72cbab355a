//! Spatial hash of a grid cell.

use vstd::prelude::*;

verus! {

/// Multiplier of the cell's column.
pub const PRIME_X: u32 = 73856093;

/// Multiplier of the cell's row.
pub const PRIME_Y: u32 = 19349663;

/// Column and row of a grid cell.
#[derive(Clone, Copy, Debug, PartialEq, Eq, Structural)]
pub struct CellCoord {
    pub x: u32,
    pub y: u32,
}

/// The identifier of a cell: each coordinate is multiplied by its prime
/// modulo 2^32, the two products are combined bitwise by exclusive or, and
/// the outcome is reduced modulo the table size.
pub open spec fn cell_id(cell: CellCoord, table_size: u32) -> u32
    recommends
        table_size > 0,
{
    ((((cell.x as int * PRIME_X as int) % 0x1_0000_0000) as u32) ^ (((cell.y as int
        * PRIME_Y as int) % 0x1_0000_0000) as u32)) % table_size
}

/// Computes the identifier of `cell` in a table of `table_size` slots.
pub fn hash(cell: CellCoord, table_size: u32) -> (id: u32)
    requires
        table_size > 0,
    ensures
        id == cell_id(cell, table_size),
        id < table_size,
{
    let hx: u32 = cell.x.wrapping_mul(PRIME_X);
    let hy: u32 = cell.y.wrapping_mul(PRIME_Y);
    (hx ^ hy) % table_size
}

} // verus!
