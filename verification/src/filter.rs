use vstd::prelude::*;

verus! {

/// The number of cells along each side of a precomputed filter's table.
pub const TABLE_WIDTH: usize = 16;

/// Get the index into a precomputed filter's row-major table of the cell in
/// column `x` and row `y`.
pub fn table_index(x: usize, y: usize) -> (i: usize)
    requires
        y * 16 + x <= usize::MAX,
    ensures
        i == y * 16 + x,
{
    y * TABLE_WIDTH + x
}

/// The cells of the 16-by-16 table have distinct indices that fill
/// `[0, 256)`.
pub proof fn lemma_table_index_one_to_one(x1: int, y1: int, x2: int, y2: int)
    requires
        0 <= x1 < 16,
        0 <= y1 < 16,
        0 <= x2 < 16,
        0 <= y2 < 16,
    ensures
        0 <= y1 * 16 + x1 < 256,
        y1 * 16 + x1 == y2 * 16 + x2 ==> x1 == x2 && y1 == y2,
{
}

} // verus!
