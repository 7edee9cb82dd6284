//! The spatial map: a fixed-size row-major grid of tiles with per-cell
//! revealed, visible and blocked flags and a derived occupancy index.

use vstd::prelude::*;

use crate::types::Position;

verus! {

/// What a cell is made of.
#[derive(Clone, Copy, Debug, PartialEq, Eq, Structural)]
pub enum TileType {
    Wall,
    Floor,
}

/// A rectangular room carved by the external map generator; kept only so
/// spawn logic can place actors inside rooms.
#[derive(Clone, Copy, Debug, PartialEq, Eq, Structural)]
pub struct Room {
    pub x1: i32,
    pub y1: i32,
    pub x2: i32,
    pub y2: i32,
}

/// The grid.  `tile_content` is a derived index, rebuilt from actor
/// positions every tick, never a source of truth.
pub struct SpatialMap {
    pub tiles: Vec<TileType>,
    pub rooms: Vec<Room>,
    pub width: i32,
    pub height: i32,
    pub revealed_tiles: Vec<bool>,
    pub visible_tiles: Vec<bool>,
    pub blocked: Vec<bool>,
    pub tile_content: Vec<Vec<usize>>,
}

impl SpatialMap {
    /// Positive dimensions whose product fits an `i32`, and one entry per
    /// cell in every per-cell column.
    pub open spec fn wf(self) -> bool {
        &&& 0 < self.width
        &&& 0 < self.height
        &&& self.width * self.height <= i32::MAX
        &&& self.tiles@.len() == self.width * self.height
        &&& self.revealed_tiles@.len() == self.width * self.height
        &&& self.visible_tiles@.len() == self.width * self.height
        &&& self.blocked@.len() == self.width * self.height
        &&& self.tile_content@.len() == self.width * self.height
    }

    /// The coordinate lies on the grid.
    pub open spec fn in_bounds(self, x: int, y: int) -> bool {
        0 <= x < self.width && 0 <= y < self.height
    }

    /// Row-major index of an in-bounds coordinate.
    pub open spec fn spec_idx(self, x: int, y: int) -> int {
        y * self.width + x
    }

    /// An in-bounds coordinate indexes inside the tile columns.
    pub proof fn lemma_idx_in_range(self, x: int, y: int)
        requires
            self.wf(),
            self.in_bounds(x, y),
        ensures
            0 <= self.spec_idx(x, y) < self.width * self.height,
    {
        assert(y * self.width + x < self.width * self.height) by (nonlinear_arith)
            requires
                0 <= x < self.width,
                0 <= y < self.height,
        ;
        assert(0 <= y * self.width + x) by (nonlinear_arith)
            requires
                0 <= x,
                0 <= y,
                0 < self.width,
        ;
    }

    /// Row-major coordinate-to-index conversion.
    pub fn xy_idx(&self, x: i32, y: i32) -> (idx: usize)
        requires
            self.wf(),
            self.in_bounds(x as int, y as int),
        ensures
            idx == self.spec_idx(x as int, y as int),
            idx < self.width * self.height,
    {
        proof {
            self.lemma_idx_in_range(x as int, y as int);
        }
        (y * self.width + x) as usize
    }

    /// Inverse of `xy_idx`: the coordinate of a cell index.
    pub fn idx_xy(&self, idx: usize) -> (p: Position)
        requires
            self.wf(),
            idx < self.width * self.height,
        ensures
            self.in_bounds(p.x as int, p.y as int),
            self.spec_idx(p.x as int, p.y as int) == idx,
    {
        let w = self.width as usize;
        let x = (idx % w) as i32;
        let y = (idx / w) as i32;
        proof {
            let wi = self.width as int;
            let hi = self.height as int;
            let ii = idx as int;
            assert(0 <= ii % wi < wi && 0 <= ii / wi < hi && (ii / wi) * wi + ii % wi == ii)
                by (nonlinear_arith)
                requires
                    0 < wi,
                    0 < hi,
                    0 <= ii < wi * hi,
            ;
        }
        Position { x, y }
    }

    /// Number of cells.
    pub fn count(&self) -> (c: usize)
        requires
            self.wf(),
        ensures
            c == self.width * self.height,
    {
        (self.width * self.height) as usize
    }

    /// The coordinate lies on the grid.
    pub fn is_valid(&self, x: i32, y: i32) -> (r: bool)
        requires
            self.wf(),
        ensures
            r == self.in_bounds(x as int, y as int),
    {
        x >= 0 && x < self.width && y >= 0 && y < self.height
    }

    /// The cell index lies on the grid.
    pub fn is_valid_idx(&self, idx: usize) -> (r: bool)
        requires
            self.wf(),
        ensures
            r == (idx < self.width * self.height),
    {
        idx < (self.width * self.height) as usize
    }

    /// Tile of an in-bounds coordinate.
    pub fn get(&self, x: i32, y: i32) -> (t: TileType)
        requires
            self.wf(),
            self.in_bounds(x as int, y as int),
        ensures
            t == self.tiles@[self.spec_idx(x as int, y as int)],
    {
        let idx = self.xy_idx(x, y);
        self.tiles[idx]
    }

    /// Tile of a coordinate, or `None` off the grid.
    pub fn safe_get(&self, x: i32, y: i32) -> (t: Option<TileType>)
        requires
            self.wf(),
        ensures
            self.in_bounds(x as int, y as int) ==> t == Some(
                self.tiles@[self.spec_idx(x as int, y as int)],
            ),
            !self.in_bounds(x as int, y as int) ==> t is None,
    {
        if self.is_valid(x, y) {
            Some(self.get(x, y))
        } else {
            None
        }
    }

    /// Overwrites the tile of an in-bounds coordinate.
    pub fn set(&mut self, x: i32, y: i32, tile: TileType)
        requires
            old(self).wf(),
            old(self).in_bounds(x as int, y as int),
        ensures
            final(self).wf(),
            final(self).tiles@ == old(self).tiles@.update(
                old(self).spec_idx(x as int, y as int),
                tile,
            ),
            *final(self) == (SpatialMap { tiles: final(self).tiles, ..*old(self) }),
    {
        let idx = self.xy_idx(x, y);
        self.tiles[idx] = tile;
    }

    /// Overwrites the tile if the coordinate is on the grid; otherwise
    /// leaves the map unchanged.
    pub fn safe_set(&mut self, x: i32, y: i32, tile: TileType)
        requires
            old(self).wf(),
        ensures
            final(self).wf(),
            old(self).in_bounds(x as int, y as int) ==> final(self).tiles@ == old(
                self,
            ).tiles@.update(old(self).spec_idx(x as int, y as int), tile),
            !old(self).in_bounds(x as int, y as int) ==> final(self).tiles@ == old(self).tiles@,
            *final(self) == (SpatialMap { tiles: final(self).tiles, ..*old(self) }),
    {
        if self.is_valid(x, y) {
            self.set(x, y, tile);
        }
    }

    /// Whether an in-bounds cell is currently visible to the player.
    pub fn is_visible(&self, x: i32, y: i32) -> (r: bool)
        requires
            self.wf(),
            self.in_bounds(x as int, y as int),
        ensures
            r == self.visible_tiles@[self.spec_idx(x as int, y as int)],
    {
        let idx = self.xy_idx(x, y);
        self.visible_tiles[idx]
    }

    /// Whether an in-bounds cell has ever been revealed to the player.
    pub fn is_revealed(&self, x: i32, y: i32) -> (r: bool)
        requires
            self.wf(),
            self.in_bounds(x as int, y as int),
        ensures
            r == self.revealed_tiles@[self.spec_idx(x as int, y as int)],
    {
        let idx = self.xy_idx(x, y);
        self.revealed_tiles[idx]
    }

    /// Whether an in-bounds cell is blocked.  Out-of-bounds queries are a
    /// caller error, excluded by the precondition.
    pub fn is_blocked(&self, x: i32, y: i32) -> (r: bool)
        requires
            self.wf(),
            self.in_bounds(x as int, y as int),
        ensures
            r == self.blocked@[self.spec_idx(x as int, y as int)],
    {
        let idx = self.xy_idx(x, y);
        self.blocked[idx]
    }

    /// A cell a pathing step may enter: on the grid and not blocked.
    pub fn is_exit_valid(&self, x: i32, y: i32) -> (r: bool)
        requires
            self.wf(),
        ensures
            r == (self.in_bounds(x as int, y as int) && !self.blocked@[self.spec_idx(
                x as int,
                y as int,
            )]),
    {
        if !self.is_valid(x, y) {
            return false;
        }
        !self.is_blocked(x, y)
    }

    /// Resets `blocked` from the static wall layer alone: a cell is
    /// blocked exactly when its tile is a wall.
    pub fn populate_blocked(&mut self)
        requires
            old(self).wf(),
        ensures
            final(self).wf(),
            final(self).blocked@.len() == old(self).blocked@.len(),
            forall|i: int|
                0 <= i < final(self).blocked@.len() ==> final(self).blocked@[i] == (old(
                    self,
                ).tiles@[i] == TileType::Wall),
            *final(self) == (SpatialMap { blocked: final(self).blocked, ..*old(self) }),
    {
        let n = self.tiles.len();
        let mut i: usize = 0;
        while i < n
            invariant
                self.wf(),
                n == self.tiles@.len(),
                i <= n,
                self.blocked@.len() == n,
                forall|k: int| 0 <= k < i ==> self.blocked@[k] == (self.tiles@[k] == TileType::Wall),
                self.tiles@ == old(self).tiles@,
                *self == (SpatialMap { blocked: self.blocked, ..*old(self) }),
            decreases n - i,
        {
            self.blocked[i] = match self.tiles[i] {
                TileType::Wall => true,
                TileType::Floor => false,
            };
            i = i + 1;
        }
    }

    /// Empties every cell's occupancy list.
    pub fn clear_content_index(&mut self)
        requires
            old(self).wf(),
        ensures
            final(self).wf(),
            final(self).tile_content@.len() == old(self).tile_content@.len(),
            forall|i: int|
                0 <= i < final(self).tile_content@.len() ==> final(self).tile_content@[i]@
                    == Seq::<usize>::empty(),
            *final(self) == (SpatialMap { tile_content: final(self).tile_content, ..*old(self) }),
    {
        let n = self.tile_content.len();
        let mut i: usize = 0;
        while i < n
            invariant
                self.wf(),
                n == self.tile_content@.len(),
                i <= n,
                forall|k: int| 0 <= k < i ==> self.tile_content@[k]@ == Seq::<usize>::empty(),
                *self == (SpatialMap { tile_content: self.tile_content, ..*old(self) }),
            decreases n - i,
        {
            self.tile_content[i].clear();
            i = i + 1;
        }
    }

    /// A fresh map of the given dimensions, every tile set to `tile_type`,
    /// nothing revealed, visible or blocked, no occupants.
    pub fn new(width: i32, height: i32, tile_type: TileType) -> (m: SpatialMap)
        requires
            0 < width,
            0 < height,
            width * height <= i32::MAX,
        ensures
            m.wf(),
            m.width == width,
            m.height == height,
            m.rooms@ == Seq::<Room>::empty(),
            forall|i: int| 0 <= i < width * height ==> m.tiles@[i] == tile_type,
            forall|i: int| 0 <= i < width * height ==> !m.revealed_tiles@[i],
            forall|i: int| 0 <= i < width * height ==> !m.visible_tiles@[i],
            forall|i: int| 0 <= i < width * height ==> !m.blocked@[i],
            forall|i: int| 0 <= i < width * height ==> m.tile_content@[i]@ == Seq::<usize>::empty(),
    {
        proof {
            assert(0 < width * height) by (nonlinear_arith)
                requires
                    0 < width,
                    0 < height,
            ;
        }
        let map_count = (width * height) as usize;
        let mut tile_content: Vec<Vec<usize>> = Vec::new();
        let mut i: usize = 0;
        while i < map_count
            invariant
                i <= map_count,
                tile_content@.len() == i,
                forall|k: int| 0 <= k < i ==> tile_content@[k]@ == Seq::<usize>::empty(),
            decreases map_count - i,
        {
            tile_content.push(Vec::new());
            i = i + 1;
        }
        SpatialMap {
            tiles: vec![tile_type; map_count],
            rooms: Vec::new(),
            width,
            height,
            revealed_tiles: vec![false; map_count],
            visible_tiles: vec![false; map_count],
            blocked: vec![false; map_count],
            tile_content,
        }
    }
}

} // verus!
