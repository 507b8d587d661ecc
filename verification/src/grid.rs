//! The chunked occupancy grid: chunks are created explicitly, queried
//! fail-closed, and filled by all-or-nothing placements.

use crate::coords::{
    cell_at, chunk_of, fits_i32, is_local, lemma_local_in_range, lemma_split_then_join, local_of,
    Cell, GridVec, CHUNK_SIZE, CHUNK_SIZE_I32,
};
use std::collections::HashMap;
use vstd::prelude::*;

verus! {

/// The occupancy flags of one chunk as a value: `tiles[x][y]` for local
/// coordinates `x` and `y`.
pub type Tiles = Seq<Seq<bool>>;

/// The grid as a value: the chunks that exist, by chunk coordinate.
pub type Chunks = Map<Cell, Tiles>;

/// A chunk in which no cell is occupied.
pub open spec fn empty_tiles() -> Tiles {
    Seq::new(CHUNK_SIZE as nat, |x: int| Seq::new(CHUNK_SIZE as nat, |y: int| false))
}

/// Whether `t` has the shape of a chunk: 16 columns of 16 flags.
pub open spec fn tiles_shaped(t: Tiles) -> bool {
    &&& t.len() == CHUNK_SIZE
    &&& forall|x: int| 0 <= x < CHUNK_SIZE ==> (#[trigger] t[x]).len() == CHUNK_SIZE
}

/// The 16 by 16 occupancy flags of one chunk.
pub struct ChunkData {
    tiles: [[bool; CHUNK_SIZE]; CHUNK_SIZE],
}

impl View for ChunkData {
    type V = Tiles;

    closed spec fn view(&self) -> Tiles {
        Seq::new(CHUNK_SIZE as nat, |x: int| self.tiles@[x]@)
    }
}

impl ChunkData {
    /// A chunk in which no cell is occupied.
    pub fn new() -> (c: ChunkData)
        ensures
            c@ == empty_tiles(),
    {
        let c = ChunkData { tiles: [[false; CHUNK_SIZE]; CHUNK_SIZE] };
        assert(c@ =~~= empty_tiles());
        c
    }

    /// Every chunk has the shape of a chunk.
    pub proof fn lemma_shaped(&self)
        ensures
            tiles_shaped(self@),
    {
    }

    /// The flag of the cell at local position `(x, y)`.
    pub fn get(&self, x: usize, y: usize) -> (b: bool)
        requires
            x < CHUNK_SIZE,
            y < CHUNK_SIZE,
        ensures
            b == self@[x as int][y as int],
    {
        self.tiles[x][y]
    }

    /// Sets the flag of the cell at local position `(x, y)` to `value` and
    /// leaves every other flag as it was.
    pub fn set(&mut self, x: usize, y: usize, value: bool)
        requires
            x < CHUNK_SIZE,
            y < CHUNK_SIZE,
        ensures
            final(self)@ == old(self)@.update(x as int, old(self)@[x as int].update(y as int, value)),
    {
        self.tiles[x][y] = value;
        assert(self@ =~~= old(self)@.update(x as int, old(self)@[x as int].update(y as int, value)));
    }
}

/// The marker that stands for a created chunk in the host's entity store.
#[derive(Clone, Copy, Debug)]
pub struct ChunkEntity {
    position: GridVec,
}

impl ChunkEntity {
    /// The coordinate of the chunk that this marker stands for.
    pub closed spec fn spec_position(&self) -> GridVec {
        self.position
    }

    /// The marker of the chunk at `position`.
    pub fn new(position: GridVec) -> (e: ChunkEntity)
        ensures
            e.position() == position,
    {
        ChunkEntity { position }
    }

    /// The coordinate of the chunk that this marker stands for.
    #[verifier::when_used_as_spec(spec_position)]
    pub fn position(&self) -> (p: GridVec)
        ensures
            p == self.spec_position(),
    {
        self.position
    }
}

/// Whether the cell at `local` of chunk `chunk` counts as occupied: a chunk
/// that does not exist is occupied everywhere.
pub open spec fn occupied_in(m: Chunks, chunk: Cell, local: Cell) -> bool {
    !m.contains_key(chunk) || m[chunk][local.x][local.y]
}

/// Whether the global cell `c` can be built on: its chunk exists and its flag
/// is clear.
pub open spec fn cell_free(m: Chunks, c: Cell) -> bool {
    m.contains_key(chunk_of(c)) && !m[chunk_of(c)][local_of(c).x][local_of(c).y]
}

/// The global cells that a footprint covers when it is anchored at `anchor`.
pub open spec fn footprint(anchor: Cell, offsets: Seq<GridVec>) -> Seq<Cell> {
    Seq::new(
        offsets.len(),
        |i: int| Cell { x: anchor.x + offsets[i].x, y: anchor.y + offsets[i].y },
    )
}

/// Whether every cell of `cells` can be built on.
pub open spec fn placeable(m: Chunks, cells: Seq<Cell>) -> bool {
    forall|i: int| 0 <= i < cells.len() ==> cell_free(m, #[trigger] cells[i])
}

/// The grid `m` with every cell of `cells` set to occupied, and nothing else
/// changed.
pub open spec fn marked(m: Chunks, cells: Seq<Cell>) -> Chunks {
    Map::new(
        |c: Cell| m.contains_key(c),
        |c: Cell|
            Seq::new(
                CHUNK_SIZE as nat,
                |x: int|
                    Seq::new(
                        CHUNK_SIZE as nat,
                        |y: int| m[c][x][y] || cells.contains(cell_at(c, Cell { x, y })),
                    ),
            ),
    )
}

/// Whether every chunk of `m` has the shape of a chunk.
pub open spec fn chunks_shaped(m: Chunks) -> bool {
    forall|c: Cell| m.contains_key(c) ==> tiles_shaped(#[trigger] m[c])
}

/// Edge length of a chunk, for sums of two coordinates.
const CHUNK_SIZE_I64: i64 = 16;

/// The key under which the chunk at `c` is stored: both axes shifted to be
/// non-negative and packed into one word.
spec fn chunk_key(c: Cell) -> u64 {
    ((c.x + 0x8000_0000) * 0x1_0000_0000 + (c.y + 0x8000_0000)) as u64
}

/// Chunks at different coordinates are stored under different keys.
proof fn lemma_chunk_key_injective(a: Cell, b: Cell)
    requires
        fits_i32(a),
        fits_i32(b),
        chunk_key(a) == chunk_key(b),
    ensures
        a == b,
{
}

/// Computes the storage key of the chunk at `(x, y)`.
fn key_of(x: i32, y: i32) -> (k: u64)
    ensures
        k == chunk_key(Cell { x: x as int, y: y as int }),
{
    let ux: u64 = (x as i64 + 0x8000_0000) as u64;
    let uy: u64 = (y as i64 + 0x8000_0000) as u64;
    ux * 0x1_0000_0000 + uy
}

/// Resolves the cell `pos + offset` to the storage key of its chunk and its
/// local position. The sum is taken without wrapping.
fn locate(pos: GridVec, offset: GridVec) -> (r: (u64, usize, usize))
    ensures
        ({
            let c = Cell { x: pos.x + offset.x, y: pos.y + offset.y };
            &&& fits_i32(chunk_of(c))
            &&& r.0 == chunk_key(chunk_of(c))
            &&& r.1 == local_of(c).x
            &&& r.2 == local_of(c).y
            &&& is_local(local_of(c))
        }),
{
    let gx: i64 = pos.x as i64 + offset.x as i64;
    let gy: i64 = pos.y as i64 + offset.y as i64;
    let cx: i64 = gx.checked_div_euclid(CHUNK_SIZE_I64).unwrap();
    let cy: i64 = gy.checked_div_euclid(CHUNK_SIZE_I64).unwrap();
    let lx: i64 = gx.checked_rem_euclid(CHUNK_SIZE_I64).unwrap();
    let ly: i64 = gy.checked_rem_euclid(CHUNK_SIZE_I64).unwrap();
    (key_of(cx as i32, cy as i32), lx as usize, ly as usize)
}

/// The build grid: an unbounded integer grid cut into chunks of 16 by 16
/// cells, of which only the chunks created so far exist.
pub struct GridMap {
    chunks: HashMap<u64, ChunkData>,
}

impl View for GridMap {
    type V = Chunks;

    closed spec fn view(&self) -> Chunks {
        Map::new(
            |c: Cell| fits_i32(c) && self.chunks@.contains_key(chunk_key(c)),
            |c: Cell| self.chunks@[chunk_key(c)]@,
        )
    }
}

impl Default for GridMap {
    fn default() -> (m: GridMap)
        ensures
            m@ == Map::<Cell, Tiles>::empty(),
    {
        GridMap::new()
    }
}

impl GridMap {
    /// A grid without chunks.
    pub fn new() -> (m: GridMap)
        ensures
            m@ == Map::<Cell, Tiles>::empty(),
    {
        let m = GridMap { chunks: HashMap::new() };
        assert(m@ =~= Map::<Cell, Tiles>::empty());
        m
    }

    /// Every chunk of the grid has the shape of a chunk, and lies at a
    /// coordinate that fits a machine coordinate.
    pub proof fn lemma_shaped(&self)
        ensures
            chunks_shaped(self@),
            forall|c: Cell| self@.contains_key(c) ==> fits_i32(c),
    {
        assert forall|c: Cell| self@.contains_key(c) implies tiles_shaped(#[trigger] self@[c]) by {
            self.chunks@[chunk_key(c)].lemma_shaped();
        }
    }

    /// Splits a global cell into the coordinate of its chunk and its position
    /// inside that chunk, with floored division so that negative cells land in
    /// negative chunks at a non-negative local position.
    pub fn global_to_chunk(pos: GridVec) -> (r: (GridVec, GridVec))
        ensures
            r.0@ == chunk_of(pos@),
            r.1@ == local_of(pos@),
            is_local(r.1@),
            cell_at(r.0@, r.1@) == pos@,
    {
        let cx = pos.x.checked_div_euclid(CHUNK_SIZE_I32).unwrap();
        let cy = pos.y.checked_div_euclid(CHUNK_SIZE_I32).unwrap();
        let lx = pos.x.checked_rem_euclid(CHUNK_SIZE_I32).unwrap();
        let ly = pos.y.checked_rem_euclid(CHUNK_SIZE_I32).unwrap();
        (GridVec { x: cx, y: cy }, GridVec { x: lx, y: ly })
    }

    /// The global cell at position `local_pos` of chunk `chunk_pos`. The local
    /// position is not validated; the result must fit a machine coordinate.
    pub fn chunk_to_global(chunk_pos: GridVec, local_pos: GridVec) -> (pos: GridVec)
        requires
            fits_i32(cell_at(chunk_pos@, local_pos@)),
        ensures
            pos@ == cell_at(chunk_pos@, local_pos@),
    {
        let x: i64 = chunk_pos.x as i64 * CHUNK_SIZE_I32 as i64 + local_pos.x as i64;
        let y: i64 = chunk_pos.y as i64 * CHUNK_SIZE_I32 as i64 + local_pos.y as i64;
        GridVec { x: x as i32, y: y as i32 }
    }

    /// Whether the chunk at `pos` has been created.
    pub fn has_chunk(&self, pos: GridVec) -> (b: bool)
        ensures
            b == self@.contains_key(pos@),
    {
        let k = key_of(pos.x, pos.y);
        self.chunks.contains_key(&k)
    }

    /// Creates the chunk at `pos`, with no cell occupied, and returns the
    /// marker to hand to the host's entity store. The chunk must not exist yet.
    pub fn create_chunk(&mut self, pos: GridVec) -> (e: ChunkEntity)
        requires
            !old(self)@.contains_key(pos@),
        ensures
            final(self)@ == old(self)@.insert(pos@, empty_tiles()),
            e.position() == pos,
    {
        let k = key_of(pos.x, pos.y);
        self.chunks.insert(k, ChunkData::new());
        proof {
            assert forall|c: Cell| fits_i32(c) && c != pos@ implies chunk_key(c) != k by {
                if chunk_key(c) == k {
                    lemma_chunk_key_injective(c, pos@);
                }
            }
            assert(self@ =~= old(self)@.insert(pos@, empty_tiles()));
        }
        ChunkEntity { position: pos }
    }

    /// Whether the cell at `local_pos` of chunk `chunk_pos` is occupied. A
    /// chunk that was never created counts as occupied everywhere.
    pub fn is_occupied(&self, chunk_pos: GridVec, local_pos: GridVec) -> (b: bool)
        requires
            is_local(local_pos@),
        ensures
            b == occupied_in(self@, chunk_pos@, local_pos@),
    {
        let k = key_of(chunk_pos.x, chunk_pos.y);
        match self.chunks.get(&k) {
            Some(chunk) => chunk.get(local_pos.x as usize, local_pos.y as usize),
            None => true,
        }
    }

    /// Places a footprint anchored at `pos`, all or nothing. When every
    /// covered cell lies in an existing chunk and is free, all of them become
    /// occupied and the result is `true`. Otherwise the grid is left exactly
    /// as it was and the result is `false`.
    pub fn try_place(&mut self, pos: GridVec, occlusion_map: &[GridVec]) -> (placed: bool)
        ensures
            placed == placeable(old(self)@, footprint(pos@, occlusion_map@)),
            placed ==> final(self)@ == marked(old(self)@, footprint(pos@, occlusion_map@)),
            !placed ==> final(self)@ == old(self)@,
    {
        let ghost cells = footprint(pos@, occlusion_map@);
        let n = occlusion_map.len();
        let mut i: usize = 0;
        while i < n
            invariant
                i <= n,
                n == occlusion_map@.len(),
                cells == footprint(pos@, occlusion_map@),
                *self == *old(self),
                forall|j: int| 0 <= j < i ==> cell_free(self@, #[trigger] cells[j]),
            decreases n - i,
        {
            let (k, lx, ly) = locate(pos, occlusion_map[i]);
            let free = match self.chunks.get(&k) {
                Some(chunk) => !chunk.get(lx, ly),
                None => false,
            };
            if !free {
                assert(!cell_free(self@, cells[i as int]));
                return false;
            }
            i = i + 1;
        }
        proof {
            self.lemma_shaped();
            assert(self@ =~~= marked(self@, cells.take(0)));
        }
        let mut i: usize = 0;
        while i < n
            invariant
                i <= n,
                n == occlusion_map@.len(),
                cells == footprint(pos@, occlusion_map@),
                placeable(old(self)@, cells),
                chunks_shaped(old(self)@),
                self@ == marked(old(self)@, cells.take(i as int)),
            decreases n - i,
        {
            let (k, lx, ly) = locate(pos, occlusion_map[i]);
            let ghost before = self@;
            let ghost c = chunk_of(cells[i as int]);
            assert(cell_free(old(self)@, cells[i as int]));
            assert(before.contains_key(c));
            let taken = self.chunks.remove(&k);
            let mut chunk = taken.unwrap();
            chunk.set(lx, ly, true);
            self.chunks.insert(k, chunk);
            proof {
                assert forall|d: Cell| fits_i32(d) && d != c implies chunk_key(d) != k by {
                    if chunk_key(d) == k {
                        lemma_chunk_key_injective(d, c);
                    }
                }
                lemma_marked_step(old(self)@, cells, i as int, before, self@);
            }
            i = i + 1;
        }
        assert(cells.take(n as int) =~= cells);
        true
    }
}

/// One step of a commit: setting the flag of `cells[i]` in the grid marked
/// with the first `i` cells gives the grid marked with the first `i + 1`.
proof fn lemma_marked_step(m: Chunks, cells: Seq<Cell>, i: int, before: Chunks, after: Chunks)
    requires
        0 <= i < cells.len(),
        chunks_shaped(m),
        m.contains_key(chunk_of(cells[i])),
        before == marked(m, cells.take(i)),
        after.dom() == before.dom(),
        forall|d: Cell| before.contains_key(d) && d != chunk_of(cells[i]) ==> after[d] == before[d],
        after[chunk_of(cells[i])] == before[chunk_of(cells[i])].update(
            local_of(cells[i]).x,
            before[chunk_of(cells[i])][local_of(cells[i]).x].update(local_of(cells[i]).y, true),
        ),
    ensures
        after == marked(m, cells.take(i + 1)),
{
    let done = cells.take(i);
    let next = cells.take(i + 1);
    let target = marked(m, next);
    assert(next =~= done.push(cells[i]));
    assert forall|d: Cell| after.contains_key(d) implies after[d] =~~= target[d] by {
        assert forall|x: int, y: int| 0 <= x < CHUNK_SIZE && 0 <= y < CHUNK_SIZE implies
            after[d][x][y] == target[d][x][y] by {
            let here = cell_at(d, Cell { x, y });
            if next.contains(here) {
                let j = choose|j: int| 0 <= j < next.len() && next[j] == here;
                if j < i {
                    assert(done[j] == here);
                }
            }
            if done.contains(here) {
                let j = choose|j: int| 0 <= j < done.len() && done[j] == here;
                assert(next[j] == here);
            }
            if here == cells[i] {
                assert(next[i] == here);
            }
        }
    }
    assert(after =~~= target);
}

/// A footprint that touches a chunk that does not exist cannot be placed.
pub proof fn lemma_missing_chunk_blocks(m: Chunks, cells: Seq<Cell>, i: int)
    requires
        0 <= i < cells.len(),
        !m.contains_key(chunk_of(cells[i])),
    ensures
        !placeable(m, cells),
{
    assert(!cell_free(m, cells[i]));
}

/// A footprint that covers a cell that is already occupied cannot be placed.
pub proof fn lemma_occupied_cell_blocks(m: Chunks, cells: Seq<Cell>, i: int)
    requires
        0 <= i < cells.len(),
        occupied_in(m, chunk_of(cells[i]), local_of(cells[i])),
    ensures
        !placeable(m, cells),
{
    assert(!cell_free(m, cells[i]));
}

/// In a chunk that does not exist every cell counts as occupied.
pub proof fn lemma_missing_chunk_occupied(m: Chunks, chunk: Cell, local: Cell)
    requires
        !m.contains_key(chunk),
    ensures
        occupied_in(m, chunk, local),
{
}

/// After a placement the chunks are the same as before, every covered cell is
/// occupied, and every other cell is as it was.
pub proof fn lemma_marked_cells(m: Chunks, cells: Seq<Cell>, chunk: Cell, local: Cell)
    requires
        is_local(local),
    ensures
        marked(m, cells).contains_key(chunk) == m.contains_key(chunk),
        occupied_in(marked(m, cells), chunk, local) == (occupied_in(m, chunk, local)
            || cells.contains(cell_at(chunk, local))),
{
}

/// After a successful placement every cell of the footprint is occupied.
pub proof fn lemma_placed_cells_occupied(m: Chunks, cells: Seq<Cell>, i: int)
    requires
        0 <= i < cells.len(),
        placeable(m, cells),
    ensures
        occupied_in(marked(m, cells), chunk_of(cells[i]), local_of(cells[i])),
{
    let c = cells[i];
    assert(cell_free(m, c));
    lemma_split_then_join(c);
    lemma_local_in_range(c);
    assert(cells.contains(cell_at(chunk_of(c), local_of(c))));
}

} // verus!
