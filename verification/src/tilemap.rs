//! The grid: a rectangular array of cell identifiers, and the conversion
//! between world-space pixels and grid indices.

use vstd::prelude::*;
use crate::math::{I64Vec2, IVec2, Rect, UVec2, TILE_SIZE};
use crate::tile::Tile;

verus! {

/// Identifies one cell: its index in the arena that holds the cells' values.
#[derive(Clone, Copy, Debug, PartialEq, Eq, Hash, Structural)]
pub struct CellId(pub usize);

/// The grid index at which a cell or an overlay stands.
#[derive(Clone, Copy, Debug, PartialEq, Eq, Structural)]
pub struct TilePosition(pub UVec2);

/// The grid index under the pointer.
#[derive(Clone, Copy, Debug, PartialEq, Eq, Structural)]
pub struct MouseTilePosition(pub UVec2);

/// A grid of `size.x` columns and `size.y` rows of cell identifiers, stored
/// column by column. It is empty until its cells are created in one step.
pub struct LadderTileMap {
    pub(crate) size: UVec2,
    pub(crate) tiles: Vec<Vec<CellId>>,
}

/// The mathematical content of a `LadderTileMap`.
#[verifier::ext_equal]
pub struct TileMapView {
    pub size: UVec2,
    pub tiles: Seq<Seq<CellId>>,
}

impl TileMapView {
    /// The shape is fixed: either no column has been created, or there are
    /// exactly `size.x` columns of `size.y` cells each; and no identifier
    /// stands at two indices.
    pub open spec fn wf(self) -> bool {
        &&& self.tiles.len() == 0 || self.tiles.len() == self.size.x
        &&& forall|x: int| 0 <= x < self.tiles.len() ==> (#[trigger] self.tiles[x]).len() == self.size.y
        &&& forall|x1: int, y1: int, x2: int, y2: int|
            0 <= x1 < self.tiles.len() && 0 <= y1 < self.size.y && 0 <= x2 < self.tiles.len() && 0 <= y2
                < self.size.y && #[trigger] self.tiles[x1][y1] == #[trigger] self.tiles[x2][y2] ==> x1 == x2
                && y1 == y2
    }

    /// Whether no cell has been created yet.
    pub open spec fn is_empty(self) -> bool {
        self.tiles.len() == 0
    }

    /// Whether every index of the grid's extent has its cell.
    pub open spec fn is_filled(self) -> bool {
        self.tiles.len() == self.size.x
    }

    /// Whether `index` lies in the grid's extent.
    pub open spec fn contains_index(self, index: UVec2) -> bool {
        index.x < self.size.x && index.y < self.size.y
    }

    /// The cell stored at `index`, if there is one.
    pub open spec fn get_tile(self, index: UVec2) -> Option<CellId> {
        if index.x < self.tiles.len() && index.y < self.tiles[index.x as int].len() {
            Some(self.tiles[index.x as int][index.y as int])
        } else {
            None
        }
    }

    /// The grid's extent in pixels.
    pub open spec fn pixel_size(self) -> I64Vec2 {
        I64Vec2 { x: (self.size.x * TILE_SIZE) as i64, y: (self.size.y * TILE_SIZE) as i64 }
    }

    /// The grid's bounding rectangle when its origin is at `position`.
    pub open spec fn rect(self, position: IVec2) -> Rect {
        Rect {
            min: I64Vec2 { x: position.x as i64, y: position.y as i64 },
            max: I64Vec2 {
                x: (position.x + self.size.x * TILE_SIZE) as i64,
                y: (position.y + self.size.y * TILE_SIZE) as i64,
            },
        }
    }

    /// Whether the world point `target` lies on the grid placed at `position`.
    pub open spec fn contains_pixel_position(self, position: IVec2, target: IVec2) -> bool {
        self.rect(position).spec_contains(target)
    }

    /// The index of the cell that holds the world point `pixel_coords`, for
    /// the grid placed at `position`; none for a point off the grid.
    pub open spec fn pixel_to_tile_position(self, position: IVec2, pixel_coords: IVec2) -> Option<UVec2> {
        if self.contains_pixel_position(position, pixel_coords) {
            Some(
                UVec2 {
                    x: ((pixel_coords.x - position.x) / (TILE_SIZE as int)) as u32,
                    y: ((pixel_coords.y - position.y) / (TILE_SIZE as int)) as u32,
                },
            )
        } else {
            None
        }
    }

    /// The cell that holds the world point `position`, for the grid placed at
    /// `origin`.
    pub open spec fn get_tile_from_pixel_position(self, origin: IVec2, position: IVec2) -> Option<CellId> {
        match self.pixel_to_tile_position(origin, position) {
            Some(index) => self.get_tile(index),
            None => None,
        }
    }

    /// Whether the cell `id` stands somewhere in the grid.
    pub open spec fn holds(self, id: CellId) -> bool {
        exists|x: int, y: int|
            0 <= x < self.tiles.len() && 0 <= y < self.size.y && #[trigger] self.tiles[x][y] == id
    }

    /// Whether the index `(x1, y1)` comes before `(x2, y2)` when the grid is
    /// walked column by column.
    pub open spec fn before(x1: int, y1: int, x2: int, y2: int) -> bool {
        x1 < x2 || (x1 == x2 && y1 < y2)
    }

    /// The world point at the centre of the cell at `index`, for the grid
    /// placed at `position`.
    pub open spec fn tile_center(position: IVec2, index: UVec2) -> (int, int) {
        (
            position.x + index.x * TILE_SIZE + TILE_SIZE / 2,
            position.y + index.y * TILE_SIZE + TILE_SIZE / 2,
        )
    }
}

/// No index outside the grid's extent has a cell.
pub proof fn lemma_get_tile_outside(tilemap: TileMapView, index: UVec2)
    requires
        tilemap.wf(),
        !tilemap.contains_index(index),
    ensures
        tilemap.get_tile(index) is None,
{
}

/// Once the grid has its cells, every index inside its extent has one.
pub proof fn lemma_get_tile_inside(tilemap: TileMapView, index: UVec2)
    requires
        tilemap.wf(),
        tilemap.is_filled(),
        tilemap.contains_index(index),
    ensures
        tilemap.get_tile(index) == Some(tilemap.tiles[index.x as int][index.y as int]),
{
}

/// The world point at the centre of a cell maps back to the cell's index,
/// wherever the grid is placed, as long as that point can be written in
/// world coordinates.
pub proof fn lemma_pixel_round_trip(tilemap: TileMapView, position: IVec2, index: UVec2)
    requires
        tilemap.contains_index(index),
        TileMapView::tile_center(position, index).0 <= i32::MAX,
        TileMapView::tile_center(position, index).1 <= i32::MAX,
    ensures
        tilemap.pixel_to_tile_position(
            position,
            IVec2 {
                x: TileMapView::tile_center(position, index).0 as i32,
                y: TileMapView::tile_center(position, index).1 as i32,
            },
        ) == Some(index),
{
    let center = TileMapView::tile_center(position, index);
    let dx = center.0 - position.x;
    let dy = center.1 - position.y;
    assert(dx == index.x * 64 + 32 && dy == index.y * 64 + 32);
    assert(dx / 64 == index.x && dy / 64 == index.y);
    assert(dx < tilemap.size.x * 64 && dy < tilemap.size.y * 64);
}

/// Every point of a cell's square maps to the cell's index: the origin of
/// the square and the 63 pixels after it in each direction.
pub proof fn lemma_pixel_in_tile(tilemap: TileMapView, position: IVec2, index: UVec2, pixel: IVec2)
    requires
        tilemap.contains_index(index),
        position.x + index.x * TILE_SIZE <= pixel.x < position.x + index.x * TILE_SIZE + TILE_SIZE,
        position.y + index.y * TILE_SIZE <= pixel.y < position.y + index.y * TILE_SIZE + TILE_SIZE,
    ensures
        tilemap.pixel_to_tile_position(position, pixel) == Some(index),
{
    let dx = pixel.x - position.x;
    let dy = pixel.y - position.y;
    assert(index.x * 64 <= dx < index.x * 64 + 64 && index.y * 64 <= dy < index.y * 64 + 64);
    assert(dx / 64 == index.x && dy / 64 == index.y);
    assert(dx < tilemap.size.x * 64 && dy < tilemap.size.y * 64);
}

impl LadderTileMap {
    pub open(crate) spec fn view(&self) -> TileMapView {
        TileMapView {
            size: self.size,
            tiles: Seq::new(self.tiles@.len(), |x: int| self.tiles@[x]@),
        }
    }

    pub open spec fn wf(&self) -> bool {
        self@.wf()
    }

    /// A grid of the given size that has no cells yet.
    pub fn new(size: UVec2) -> (tilemap: LadderTileMap)
        ensures
            tilemap@ =~= (TileMapView { size, tiles: Seq::empty() }),
            tilemap.wf(),
    {
        LadderTileMap { size, tiles: Vec::new() }
    }

    /// Number of columns.
    pub fn width(&self) -> (w: u32)
        ensures
            w == self@.size.x,
    {
        self.size.x
    }

    /// Number of rows.
    pub fn height(&self) -> (h: u32)
        ensures
            h == self@.size.y,
    {
        self.size.y
    }

    /// Whether no cell has been created yet.
    pub fn is_empty(&self) -> (b: bool)
        ensures
            b == self@.is_empty(),
    {
        self.tiles.is_empty()
    }

    /// The grid's extent in pixels.
    pub fn pixel_size(&self) -> (extent: I64Vec2)
        ensures
            extent == self@.pixel_size(),
            extent.x == self@.size.x * TILE_SIZE,
            extent.y == self@.size.y * TILE_SIZE,
    {
        assert(TILE_SIZE == 64);
        assert(self.size.x * 64 <= 0x3f_ffff_ffc0 && self.size.y * 64 <= 0x3f_ffff_ffc0);
        I64Vec2 { x: self.size.x as i64 * TILE_SIZE as i64, y: self.size.y as i64 * TILE_SIZE as i64 }
    }

    /// The grid's bounding rectangle when its origin is at `position`.
    pub fn rect(&self, position: IVec2) -> (rect: Rect)
        ensures
            rect == self@.rect(position),
            rect.min.x == position.x,
            rect.min.y == position.y,
            rect.max.x == position.x + self@.size.x * TILE_SIZE,
            rect.max.y == position.y + self@.size.y * TILE_SIZE,
    {
        let extent = self.pixel_size();
        Rect {
            min: I64Vec2 { x: position.x as i64, y: position.y as i64 },
            max: I64Vec2 { x: position.x as i64 + extent.x, y: position.y as i64 + extent.y },
        }
    }

    /// Whether `index` lies in the grid's extent.
    pub fn contains_index(&self, index: UVec2) -> (b: bool)
        ensures
            b == self@.contains_index(index),
    {
        index.x < self.size.x && index.y < self.size.y
    }

    /// Whether the world point `target_position` lies on the grid placed at
    /// `position`.
    pub fn contains_pixel_position(&self, position: IVec2, target_position: IVec2) -> (b: bool)
        ensures
            b == self@.contains_pixel_position(position, target_position),
    {
        self.rect(position).contains(target_position)
    }

    /// The index of the cell that holds the world point `pixel_coords`, for
    /// the grid placed at `position`. A point off the grid has none; a point
    /// on the grid always has an index inside the grid's extent.
    pub fn pixel_to_tile_position(&self, position: IVec2, pixel_coords: IVec2) -> (index: Option<UVec2>)
        ensures
            index == self@.pixel_to_tile_position(position, pixel_coords),
            index is Some <==> self@.contains_pixel_position(position, pixel_coords),
            index matches Some(i) ==> self@.contains_index(i),
    {
        if !self.contains_pixel_position(position, pixel_coords) {
            return None;
        }
        let dx: u64 = (pixel_coords.x as i64 - position.x as i64) as u64;
        let dy: u64 = (pixel_coords.y as i64 - position.y as i64) as u64;
        let x: u64 = dx / (TILE_SIZE as u64);
        let y: u64 = dy / (TILE_SIZE as u64);
        assert(x == dx / 64 && y == dy / 64);
        assert(dx < self.size.x * 64 && dy < self.size.y * 64);
        Some(UVec2 { x: x as u32, y: y as u32 })
    }

    /// The cell stored at `index`, if there is one. An index outside the
    /// grid's extent never has one.
    pub fn get_tile(&self, index: UVec2) -> (cell: Option<CellId>)
        ensures
            cell == self@.get_tile(index),
            self.wf() && !self@.contains_index(index) ==> cell is None,
            self.wf() && self@.contains_index(index) && !self@.is_empty() ==> cell is Some,
    {
        let x: usize = index.x as usize;
        let y: usize = index.y as usize;
        if x < self.tiles.len() {
            let column = &self.tiles[x];
            if y < column.len() {
                return Some(column[y]);
            }
        }
        None
    }

    /// The cell that holds the world point `position`, for the grid placed at
    /// `origin`: none for a point off the grid, and none while the grid has
    /// no cells.
    pub fn get_tile_from_pixel_position(&self, origin: IVec2, position: IVec2) -> (cell: Option<CellId>)
        ensures
            cell == self@.get_tile_from_pixel_position(origin, position),
            !self@.contains_pixel_position(origin, position) ==> cell is None,
    {
        match self.pixel_to_tile_position(origin, position) {
            Some(index) => self.get_tile(index),
            None => None,
        }
    }

    /// Replaces the value of every cell of the grid by what `func` makes of
    /// it, given the cell's index and the grid's size. Each cell is visited
    /// once; values in `tile_query` that belong to no cell of the grid stay
    /// as they are.
    pub fn apply_pos_fn<F: Fn(&Tile, UVec2, UVec2) -> Tile>(&self, func: F, tile_query: &mut Vec<Tile>)
        requires
            self.wf(),
            forall|x: int, y: int|
                0 <= x < self@.tiles.len() && 0 <= y < self@.size.y ==> (#[trigger] self@.tiles[x][y]).0 < old(
                    tile_query,
                )@.len(),
            forall|tile: &Tile, position: UVec2|
                self@.contains_index(position) ==> call_requires(func, (tile, position, self@.size)),
        ensures
            final(tile_query)@.len() == old(tile_query)@.len(),
            forall|x: int, y: int|
                0 <= x < self@.tiles.len() && 0 <= y < self@.size.y ==> call_ensures(
                    func,
                    (
                        &old(tile_query)@[(#[trigger] self@.tiles[x][y]).0 as int],
                        UVec2 { x: x as u32, y: y as u32 },
                        self@.size,
                    ),
                    final(tile_query)@[self@.tiles[x][y].0 as int],
                ),
            forall|i: int|
                0 <= i < old(tile_query)@.len() && !self@.holds(CellId(i as usize)) ==> final(tile_query)@[i]
                    == old(tile_query)@[i],
    {
        let ghost grid = self@;
        let ghost before = tile_query@;
        let mut x: usize = 0;
        while x < self.tiles.len()
            invariant
                grid == self@,
                grid.wf(),
                x <= grid.tiles.len(),
                tile_query@.len() == before.len(),
                forall|x1: int, y1: int|
                    0 <= x1 < grid.tiles.len() && 0 <= y1 < grid.size.y ==> (#[trigger] grid.tiles[x1][y1]).0
                        < before.len(),
                forall|tile: &Tile, position: UVec2|
                    grid.contains_index(position) ==> call_requires(func, (tile, position, grid.size)),
                forall|x1: int, y1: int|
                    0 <= x1 < x && 0 <= y1 < grid.size.y ==> call_ensures(
                        func,
                        (
                            &before[(#[trigger] grid.tiles[x1][y1]).0 as int],
                            UVec2 { x: x1 as u32, y: y1 as u32 },
                            grid.size,
                        ),
                        tile_query@[grid.tiles[x1][y1].0 as int],
                    ),
                forall|x1: int, y1: int|
                    x <= x1 < grid.tiles.len() && 0 <= y1 < grid.size.y ==> tile_query@[(
                    #[trigger] grid.tiles[x1][y1]).0 as int] == before[grid.tiles[x1][y1].0 as int],
                forall|i: int|
                    0 <= i < before.len() && !grid.holds(CellId(i as usize)) ==> tile_query@[i] == before[i],
            decreases self.tiles.len() - x,
        {
            let mut y: usize = 0;
            assert(grid.tiles[x as int] == self.tiles@[x as int]@);
            while y < self.tiles[x].len()
                invariant
                    grid == self@,
                    grid.wf(),
                    x < grid.tiles.len(),
                    grid.tiles[x as int] == self.tiles@[x as int]@,
                    y <= grid.size.y,
                    tile_query@.len() == before.len(),
                    forall|x1: int, y1: int|
                        0 <= x1 < grid.tiles.len() && 0 <= y1 < grid.size.y ==> (
                        #[trigger] grid.tiles[x1][y1]).0 < before.len(),
                    forall|tile: &Tile, position: UVec2|
                        grid.contains_index(position) ==> call_requires(func, (tile, position, grid.size)),
                    forall|x1: int, y1: int|
                        0 <= x1 < grid.tiles.len() && 0 <= y1 < grid.size.y && TileMapView::before(
                            x1,
                            y1,
                            x as int,
                            y as int,
                        ) ==> call_ensures(
                            func,
                            (
                                &before[(#[trigger] grid.tiles[x1][y1]).0 as int],
                                UVec2 { x: x1 as u32, y: y1 as u32 },
                                grid.size,
                            ),
                            tile_query@[grid.tiles[x1][y1].0 as int],
                        ),
                    forall|x1: int, y1: int|
                        0 <= x1 < grid.tiles.len() && 0 <= y1 < grid.size.y && !TileMapView::before(
                            x1,
                            y1,
                            x as int,
                            y as int,
                        ) ==> tile_query@[(#[trigger] grid.tiles[x1][y1]).0 as int]
                            == before[grid.tiles[x1][y1].0 as int],
                    forall|i: int|
                        0 <= i < before.len() && !grid.holds(CellId(i as usize)) ==> tile_query@[i]
                            == before[i],
                decreases grid.size.y - y,
            {
                let id = self.tiles[x][y];
                let position = UVec2 { x: x as u32, y: y as u32 };
                assert(grid.tiles[x as int][y as int] == id);
                assert(grid.holds(id));
                let tile = func(&tile_query[id.0], position, self.size);
                tile_query[id.0] = tile;
                y += 1;
            }
            x += 1;
        }
    }
}

} // verus!
