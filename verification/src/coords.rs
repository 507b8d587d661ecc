//! Grid coordinates and the transform between a global cell and its
//! (chunk, local) pair.

use vstd::prelude::*;

verus! {

/// Edge length of a chunk, in cells.
pub const CHUNK_SIZE: usize = 16;

/// Edge length of a chunk as a signed coordinate.
pub const CHUNK_SIZE_I32: i32 = 16;

/// A point of the unbounded integer grid. It stands for a global cell, for a
/// chunk coordinate, for a local coordinate inside a chunk or for an offset,
/// depending on where it is used.
pub struct Cell {
    pub x: int,
    pub y: int,
}

/// A pair of machine integers: the executable form of a [`Cell`].
#[derive(Clone, Copy, Debug, PartialEq, Eq, Structural, Hash)]
pub struct GridVec {
    pub x: i32,
    pub y: i32,
}

impl View for GridVec {
    type V = Cell;

    open spec fn view(&self) -> Cell {
        Cell { x: self.x as int, y: self.y as int }
    }
}

/// The chunk that holds the global cell `c`: floored division by the chunk size.
pub open spec fn chunk_of(c: Cell) -> Cell {
    Cell { x: c.x / (CHUNK_SIZE_I32 as int), y: c.y / (CHUNK_SIZE_I32 as int) }
}

/// The position of the global cell `c` inside its chunk: the remainder of the
/// floored division, in `[0, 16)` on both axes.
pub open spec fn local_of(c: Cell) -> Cell {
    Cell { x: c.x % (CHUNK_SIZE_I32 as int), y: c.y % (CHUNK_SIZE_I32 as int) }
}

/// The global cell at position `local` of chunk `chunk`.
pub open spec fn cell_at(chunk: Cell, local: Cell) -> Cell {
    Cell { x: chunk.x * CHUNK_SIZE_I32 + local.x, y: chunk.y * CHUNK_SIZE_I32 + local.y }
}

/// Whether `local` addresses a cell of a chunk: both axes in `[0, 16)`.
pub open spec fn is_local(local: Cell) -> bool {
    0 <= local.x < CHUNK_SIZE_I32 && 0 <= local.y < CHUNK_SIZE_I32
}

/// Whether both axes of `c` fit a machine coordinate.
pub open spec fn fits_i32(c: Cell) -> bool {
    i32::MIN <= c.x <= i32::MAX && i32::MIN <= c.y <= i32::MAX
}

impl GridVec {
    /// The pair `(x, y)`.
    pub fn new(x: i32, y: i32) -> (v: GridVec)
        ensures
            v.x == x,
            v.y == y,
    {
        GridVec { x, y }
    }
}

/// Splitting a cell and joining the parts again gives the cell back.
pub proof fn lemma_split_then_join(c: Cell)
    ensures
        cell_at(chunk_of(c), local_of(c)) == c,
{
}

/// The local part of every cell, negative ones included, lies in `[0, 16)` on
/// both axes.
pub proof fn lemma_local_in_range(c: Cell)
    ensures
        is_local(local_of(c)),
{
}

/// Joining a chunk and a position inside it, then splitting the cell, gives
/// both parts back.
pub proof fn lemma_join_then_split(chunk: Cell, local: Cell)
    requires
        is_local(local),
    ensures
        chunk_of(cell_at(chunk, local)) == chunk,
        local_of(cell_at(chunk, local)) == local,
{
}

} // verus!
