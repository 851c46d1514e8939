//! Cells of the lattice and the integer key under which a cell is stored.

use vstd::prelude::*;

verus! {

/// A cell of the unbounded lattice, as a pair of column and row.
pub type Cell = (int, int);

/// The part of the lattice whose cells a pair of `i32` can name.
pub open spec fn in_lattice(c: Cell) -> bool {
    i32::MIN <= c.0 <= i32::MAX && i32::MIN <= c.1 <= i32::MAX
}

/// The key of a cell: column and row, each shifted to be non-negative, as the
/// high and the low half of a 64-bit number.
pub open spec fn key_of(c: Cell) -> int {
    (c.0 + 0x8000_0000) * 0x1_0000_0000 + (c.1 + 0x8000_0000)
}

/// The cell that a key stands for.
pub open spec fn cell_of(k: int) -> Cell {
    (k / 0x1_0000_0000 - 0x8000_0000, k % 0x1_0000_0000 - 0x8000_0000)
}

/// Keys and cells of the lattice correspond one to one.
pub proof fn lemma_key_cell(c: Cell)
    requires
        in_lattice(c),
    ensures
        0 <= key_of(c) <= u64::MAX,
        cell_of(key_of(c)) == c,
{
}

/// Every 64-bit key stands for a cell of the lattice.
pub proof fn lemma_cell_key(k: int)
    requires
        0 <= k <= u64::MAX,
    ensures
        in_lattice(cell_of(k)),
        key_of(cell_of(k)) == k,
{
}

/// The key of the cell `(x, y)`.
pub fn cell_key(x: i32, y: i32) -> (k: u64)
    ensures
        k == key_of((x as int, y as int)),
{
    let col: u64 = (x as i64 + 0x8000_0000) as u64;
    let row: u64 = (y as i64 + 0x8000_0000) as u64;
    col * 0x1_0000_0000 + row
}

/// The cell that the key `k` stands for.
pub fn key_cell(k: u64) -> (c: (i32, i32))
    ensures
        (c.0 as int, c.1 as int) == cell_of(k as int),
{
    let col: i64 = (k / 0x1_0000_0000) as i64 - 0x8000_0000;
    let row: i64 = (k % 0x1_0000_0000) as i64 - 0x8000_0000;
    (col as i32, row as i32)
}

} // verus!
