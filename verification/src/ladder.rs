//! A grid together with its cells: the value of each cell, where it stands,
//! its hover and focus flags and its stroke, and the grid's references to
//! the cell under the pointer and to the selected cell.

use vstd::prelude::*;
use vstd::arithmetic::div_mod::{
    lemma_fundamental_div_mod,
    lemma_fundamental_div_mod_converse,
    lemma_mod_bound,
    lemma_multiply_divide_lt,
};
use vstd::arithmetic::mul::lemma_mul_inequality;
use crate::math::UVec2;
use crate::style::{style_for, Color, Stroke, THIN};
use crate::tile::{Tile, TileView};
use crate::tilemap::{CellId, LadderTileMap, MouseTilePosition, TileMapView, TilePosition};

verus! {

/// The grid's reference to the cell under the pointer.
#[derive(Clone, Copy, Debug, PartialEq, Eq, Structural)]
pub struct HoveredRef(pub CellId);

/// The grid's reference to the cell that was selected last.
#[derive(Clone, Copy, Debug, PartialEq, Eq, Structural)]
pub struct FocusedRef(pub CellId);

/// The overlay that marks the grid index under the pointer.
#[derive(Clone, Copy, Debug, PartialEq, Eq, Structural)]
pub struct TileMapCursor {
    pub position: TilePosition,
}

/// What is kept for each cell besides its value.
#[derive(Clone, Copy, Debug, PartialEq, Eq, Structural)]
pub struct TileState {
    /// The grid index at which the cell stands.
    pub position: TilePosition,
    /// Set while the pointer is on the cell.
    pub hovered: bool,
    /// Set on the selected cell.
    pub focused: bool,
    /// Set when a flag has changed and the stroke has not followed yet.
    pub needs_style_update: bool,
    /// The stroke with which the cell is drawn.
    pub stroke: Stroke,
}

impl TileState {
    /// The state of a cell that has just been created at `position`.
    pub open spec fn spawned(position: UVec2) -> TileState {
        TileState {
            position: TilePosition(position),
            hovered: false,
            focused: false,
            needs_style_update: false,
            stroke: Stroke { color: Color::Black, line_width: THIN },
        }
    }

    /// The state with the hover flag set to `on`; a change of the flag asks
    /// for a new stroke.
    pub open spec fn with_hovered(self, on: bool) -> TileState {
        if self.hovered == on {
            self
        } else {
            TileState { hovered: on, needs_style_update: true, ..self }
        }
    }

    /// The state with the focus flag set to `on`; a change of the flag asks
    /// for a new stroke.
    pub open spec fn with_focused(self, on: bool) -> TileState {
        if self.focused == on {
            self
        } else {
            TileState { focused: on, needs_style_update: true, ..self }
        }
    }

    /// The state after a pending stroke update has been carried out.
    pub open spec fn restyled(self) -> TileState {
        if self.needs_style_update {
            TileState {
                needs_style_update: false,
                stroke: style_for(self.hovered, self.focused),
                ..self
            }
        } else {
            self
        }
    }

    /// The stroke is what the flags ask for, or an update is pending.
    pub open spec fn styled(self) -> bool {
        !self.needs_style_update ==> self.stroke == style_for(self.hovered, self.focused)
    }
}

/// One grid and its cells. The cells live in an arena; a `CellId` is an
/// index into it.
pub struct Ladder {
    pub(crate) tilemap: LadderTileMap,
    pub(crate) tiles: Vec<Tile>,
    pub(crate) states: Vec<TileState>,
    pub(crate) mouse_tile_position: Option<MouseTilePosition>,
    pub(crate) hovered_ref: Option<HoveredRef>,
    pub(crate) focused_ref: Option<FocusedRef>,
    pub(crate) cursor: Option<TileMapCursor>,
}

/// The mathematical content of a `Ladder`.
#[verifier::ext_equal]
pub struct LadderView {
    pub tilemap: TileMapView,
    pub tiles: Seq<TileView>,
    pub states: Seq<TileState>,
    pub mouse_tile_position: Option<MouseTilePosition>,
    pub hovered_ref: Option<HoveredRef>,
    pub focused_ref: Option<FocusedRef>,
    pub cursor: Option<TileMapCursor>,
}

impl LadderView {
    /// A grid of the given size without cells.
    pub open spec fn new(size: UVec2) -> LadderView {
        LadderView {
            tilemap: TileMapView { size, tiles: Seq::empty() },
            tiles: Seq::empty(),
            states: Seq::empty(),
            mouse_tile_position: None,
            hovered_ref: None,
            focused_ref: None,
            cursor: None,
        }
    }

    /// The arena index of the cell under the pointer, if the grid records one.
    pub open spec fn hovered_id(self) -> Option<int> {
        match self.hovered_ref {
            Some(hovered) => Some(hovered.0.0 as int),
            None => None,
        }
    }

    /// The arena index of the cell that the grid records as selected.
    pub open spec fn focused_id(self) -> Option<int> {
        match self.focused_ref {
            Some(focused) => Some(focused.0.0 as int),
            None => None,
        }
    }

    /// Every index of the grid holds a cell of the arena, and that cell
    /// stands at this index.
    pub open spec fn grid_resolves(self) -> bool {
        forall|x: int, y: int|
            0 <= x < self.tilemap.tiles.len() && 0 <= y < self.tilemap.size.y ==> {
                &&& (#[trigger] self.tilemap.tiles[x][y]).0 < self.states.len()
                &&& self.states[self.tilemap.tiles[x][y].0 as int].position == TilePosition(
                    UVec2 { x: x as u32, y: y as u32 },
                )
            }
    }

    /// Every cell of the arena stands at an index of the grid, and the grid
    /// holds this cell there.
    pub open spec fn cells_resolve(self) -> bool {
        forall|id: int|
            0 <= id < self.states.len() ==> {
                let position = (#[trigger] self.states[id]).position.0;
                &&& position.x < self.tilemap.tiles.len()
                &&& position.y < self.tilemap.size.y
                &&& self.tilemap.tiles[position.x as int][position.y as int] == CellId(id as usize)
            }
    }

    /// A cell carries the hover flag exactly if the grid's hover reference
    /// names it.
    pub open spec fn hover_agrees(self) -> bool {
        &&& self.hovered_id() matches Some(id) ==> id < self.states.len()
        &&& forall|id: int|
            0 <= id < self.states.len() ==> ((#[trigger] self.states[id]).hovered <==> self.hovered_id()
                == Some(id))
    }

    /// A cell that carries the focus flag is the one that the grid's focus
    /// reference names.
    pub open spec fn focus_agrees(self) -> bool {
        &&& self.focused_id() matches Some(id) ==> id < self.states.len()
        &&& forall|id: int|
            0 <= id < self.states.len() ==> ((#[trigger] self.states[id]).focused ==> self.focused_id()
                == Some(id))
    }

    /// Every stroke is up to date or marked for an update.
    pub open spec fn strokes_agree(self) -> bool {
        forall|id: int| 0 <= id < self.states.len() ==> (#[trigger] self.states[id]).styled()
    }

    /// The invariant of a grid with its cells.
    pub open spec fn wf(self) -> bool {
        &&& self.tilemap.wf()
        &&& self.tiles.len() == self.states.len()
        &&& self.states.len() <= usize::MAX
        &&& self.states.len() == self.tilemap.tiles.len() * self.tilemap.size.y
        &&& self.grid_resolves()
        &&& self.cells_resolve()
        &&& self.hover_agrees()
        &&& self.focus_agrees()
        &&& self.strokes_agree()
        &&& self.mouse_tile_position matches Some(mouse) ==> self.tilemap.contains_index(mouse.0)
        &&& self.cursor matches Some(cursor) ==> self.tilemap.contains_index(cursor.position.0)
    }

    /// The grid after its cells have been created: one empty cell for each
    /// index, numbered column by column. A grid that has cells stays as it is.
    pub open spec fn initialized(self) -> LadderView {
        if !self.tilemap.is_empty() {
            self
        } else {
            let w = self.tilemap.size.x as int;
            let h = self.tilemap.size.y as int;
            LadderView {
                tilemap: TileMapView {
                    size: self.tilemap.size,
                    tiles: Seq::new(
                        w as nat,
                        |x: int| Seq::new(h as nat, |y: int| CellId((x * h + y) as usize)),
                    ),
                },
                tiles: Seq::new((w * h) as nat, |id: int| TileView::Empty),
                states: Seq::new(
                    (w * h) as nat,
                    |id: int| TileState::spawned(UVec2 { x: (id / h) as u32, y: (id % h) as u32 }),
                ),
                ..self
            }
        }
    }
}

/// Creating the cells of a grid that has none keeps the invariant, as long
/// as the number of cells fits the machine's index type.
pub proof fn lemma_initialized_wf(ladder: LadderView)
    requires
        ladder.wf(),
        ladder.tilemap.size.x * ladder.tilemap.size.y <= usize::MAX,
    ensures
        ladder.initialized().wf(),
        ladder.initialized().tilemap.is_filled(),
{
    if ladder.tilemap.is_empty() {
        let after = ladder.initialized();
        let w = ladder.tilemap.size.x as int;
        let h = ladder.tilemap.size.y as int;
        assert(ladder.states.len() == 0);
        assert forall|x: int, y: int| 0 <= x < w && 0 <= y < h implies 0 <= #[trigger] (x * h + y) < w * h
            && (x * h + y) / h == x && (x * h + y) % h == y by {
            lemma_mul_inequality(x + 1, w, h);
            assert((x + 1) * h == x * h + h) by (nonlinear_arith);
            assert(0 <= x * h) by (nonlinear_arith)
                requires
                    0 <= x,
                    0 <= h,
            ;
            lemma_fundamental_div_mod_converse(x * h + y, h, x, y);
        }
        assert forall|id: int| 0 <= id < w * h implies 0 <= #[trigger] (id / h) < w && 0 <= id % h < h && (id
            / h) * h + id % h == id by {
            assert(h > 0) by (nonlinear_arith)
                requires
                    0 <= id < w * h,
                    0 <= w,
                    0 <= h,
            ;
            lemma_fundamental_div_mod(id, h);
            lemma_mod_bound(id, h);
            assert(h * w == w * h) by (nonlinear_arith);
            lemma_multiply_divide_lt(id, h, w);
            assert(0 <= id / h) by (nonlinear_arith)
                requires
                    0 <= id,
                    0 < h,
            ;
            assert(h * (id / h) == (id / h) * h) by (nonlinear_arith);
        }
        assert(after.tilemap.wf()) by {
            assert forall|x1: int, y1: int, x2: int, y2: int|
                0 <= x1 < after.tilemap.tiles.len() && 0 <= y1 < after.tilemap.size.y && 0 <= x2
                    < after.tilemap.tiles.len() && 0 <= y2 < after.tilemap.size.y
                    && #[trigger] after.tilemap.tiles[x1][y1] == #[trigger] after.tilemap.tiles[x2][y2] implies x1
                == x2 && y1 == y2 by {
                assert(0 <= x1 * h + y1 < w * h);
                assert(0 <= x2 * h + y2 < w * h);
                assert((x1 * h + y1) / h == x1 && (x1 * h + y1) % h == y1);
                assert((x2 * h + y2) / h == x2 && (x2 * h + y2) % h == y2);
            }
        }
        assert(after.grid_resolves()) by {
            assert forall|x: int, y: int|
                0 <= x < after.tilemap.tiles.len() && 0 <= y < after.tilemap.size.y implies {
                &&& (#[trigger] after.tilemap.tiles[x][y]).0 < after.states.len()
                &&& after.states[after.tilemap.tiles[x][y].0 as int].position == TilePosition(
                    UVec2 { x: x as u32, y: y as u32 },
                )
            } by {
                assert(0 <= x * h + y < w * h);
                assert((x * h + y) / h == x && (x * h + y) % h == y);
            }
        }
        assert(after.cells_resolve()) by {
            assert forall|id: int| 0 <= id < after.states.len() implies {
                let position = (#[trigger] after.states[id]).position.0;
                &&& position.x < after.tilemap.tiles.len()
                &&& position.y < after.tilemap.size.y
                &&& after.tilemap.tiles[position.x as int][position.y as int] == CellId(id as usize)
            } by {
                assert(0 <= id / h < w);
            }
        }
        assert(after.states.len() == after.tilemap.tiles.len() * after.tilemap.size.y);
    }
}

/// Creating the cells of a grid gives it one cell for each index of its
/// extent and no other: every cell stands at an index inside the extent,
/// the grid finds the cell at that index, and no two cells share an index.
/// The number of cells must fit the machine's index type.
pub proof fn lemma_init_cells(size: UVec2)
    requires
        size.x * size.y <= usize::MAX,
    ensures
        ({
            let ladder = LadderView::new(size).initialized();
            &&& ladder.wf()
            &&& ladder.tilemap.size == size
            &&& ladder.states.len() == size.x * size.y
            &&& ladder.tiles.len() == size.x * size.y
            &&& forall|id: int|
                0 <= id < ladder.states.len() ==> {
                    let position = (#[trigger] ladder.states[id]).position.0;
                    &&& position.x < size.x
                    &&& position.y < size.y
                    &&& ladder.tilemap.get_tile(position) == Some(CellId(id as usize))
                }
            &&& forall|index: UVec2|
                index.x < size.x && index.y < size.y ==> {
                    &&& (#[trigger] ladder.tilemap.get_tile(index)) matches Some(cell)
                    &&& cell.0 < ladder.states.len()
                    &&& ladder.states[cell.0 as int].position == TilePosition(index)
                }
            &&& forall|a: int, b: int|
                0 <= a < ladder.states.len() && 0 <= b < ladder.states.len() && a != b
                    ==> (#[trigger] ladder.states[a]).position != (#[trigger] ladder.states[b]).position
        }),
{
    let fresh = LadderView::new(size);
    let ladder = fresh.initialized();
    lemma_initialized_wf(fresh);
    assert forall|index: UVec2| index.x < size.x && index.y < size.y implies {
        &&& (#[trigger] ladder.tilemap.get_tile(index)) matches Some(cell)
        &&& cell.0 < ladder.states.len()
        &&& ladder.states[cell.0 as int].position == TilePosition(index)
    } by {
        let cell = ladder.tilemap.tiles[index.x as int][index.y as int];
        assert(ladder.states[cell.0 as int].position == TilePosition(
            UVec2 { x: index.x as int as u32, y: index.y as int as u32 },
        ));
    }
    assert forall|a: int, b: int|
        0 <= a < ladder.states.len() && 0 <= b < ladder.states.len() && a != b implies (
    #[trigger] ladder.states[a]).position != (#[trigger] ladder.states[b]).position by {
        let pa = ladder.states[a].position.0;
        let pb = ladder.states[b].position.0;
        assert(ladder.tilemap.tiles[pa.x as int][pa.y as int] == CellId(a as usize));
        assert(ladder.tilemap.tiles[pb.x as int][pb.y as int] == CellId(b as usize));
    }
}

/// In a grid that keeps its invariant at most one cell carries the hover
/// flag and at most one the focus flag; the hovered cell is the one that
/// the grid's hover reference names, and without a reference no cell is
/// hovered.
pub proof fn lemma_one_hover_one_focus(ladder: LadderView)
    requires
        ladder.wf(),
    ensures
        forall|a: int, b: int|
            0 <= a < ladder.states.len() && 0 <= b < ladder.states.len() && (#[trigger] ladder.states[a]).hovered
                && (#[trigger] ladder.states[b]).hovered ==> a == b,
        forall|a: int, b: int|
            0 <= a < ladder.states.len() && 0 <= b < ladder.states.len() && (#[trigger] ladder.states[a]).focused
                && (#[trigger] ladder.states[b]).focused ==> a == b,
        forall|id: int|
            0 <= id < ladder.states.len() ==> ((#[trigger] ladder.states[id]).hovered <==> ladder.hovered_ref
                == Some(HoveredRef(CellId(id as usize)))),
        ladder.hovered_ref matches Some(hovered) ==> hovered.0.0 < ladder.states.len()
            && ladder.states[hovered.0.0 as int].hovered,
{
    assert forall|id: int| 0 <= id < ladder.states.len() implies ((#[trigger] ladder.states[id]).hovered
        <==> ladder.hovered_ref == Some(HoveredRef(CellId(id as usize)))) by {
        assert(ladder.states[id].hovered <==> ladder.hovered_id() == Some(id));
    }
}

impl Ladder {
    pub open(crate) spec fn view(&self) -> LadderView {
        LadderView {
            tilemap: self.tilemap@,
            tiles: Seq::new(self.tiles@.len(), |id: int| self.tiles@[id]@),
            states: self.states@,
            mouse_tile_position: self.mouse_tile_position,
            hovered_ref: self.hovered_ref,
            focused_ref: self.focused_ref,
            cursor: self.cursor,
        }
    }

    pub open spec fn wf(&self) -> bool {
        self@.wf()
    }

    /// A grid of the given size without cells; `ladder_init_system` creates
    /// them.
    pub fn new(size: UVec2) -> (ladder: Ladder)
        ensures
            ladder@ =~= LadderView::new(size),
            ladder.wf(),
    {
        let ladder = Ladder {
            tilemap: LadderTileMap::new(size),
            tiles: Vec::new(),
            states: Vec::new(),
            mouse_tile_position: None,
            hovered_ref: None,
            focused_ref: None,
            cursor: None,
        };
        assert(ladder@ =~= LadderView::new(size));
        assert(LadderView::new(size).wf());
        ladder
    }

    /// The grid.
    pub fn tilemap(&self) -> (tilemap: &LadderTileMap)
        ensures
            tilemap@ == self@.tilemap,
    {
        &self.tilemap
    }

    /// Number of cells.
    pub fn len(&self) -> (n: usize)
        ensures
            n == self@.states.len(),
    {
        self.states.len()
    }

    /// The value of the cell `id`, if there is such a cell.
    pub fn tile(&self, id: CellId) -> (tile: Option<&Tile>)
        ensures
            tile matches Some(t) ==> id.0 < self@.tiles.len() && t@ == self@.tiles[id.0 as int],
            tile is None <==> id.0 >= self@.tiles.len(),
    {
        if id.0 < self.tiles.len() {
            Some(&self.tiles[id.0])
        } else {
            None
        }
    }

    /// Position, flags and stroke of the cell `id`, if there is such a cell.
    pub fn state(&self, id: CellId) -> (state: Option<TileState>)
        ensures
            state == (if id.0 < self@.states.len() {
                Some(self@.states[id.0 as int])
            } else {
                None
            }),
    {
        if id.0 < self.states.len() {
            Some(self.states[id.0])
        } else {
            None
        }
    }

    /// The grid index under the pointer, while the pointer is on the grid.
    pub fn mouse_tile_position(&self) -> (position: Option<MouseTilePosition>)
        ensures
            position == self@.mouse_tile_position,
    {
        self.mouse_tile_position
    }

    /// The grid's reference to the hovered cell.
    pub fn hovered_ref(&self) -> (hovered: Option<HoveredRef>)
        ensures
            hovered == self@.hovered_ref,
    {
        self.hovered_ref
    }

    /// The grid's reference to the selected cell.
    pub fn focused_ref(&self) -> (focused: Option<FocusedRef>)
        ensures
            focused == self@.focused_ref,
    {
        self.focused_ref
    }

    /// The overlay under the pointer.
    pub fn cursor(&self) -> (cursor: Option<TileMapCursor>)
        ensures
            cursor == self@.cursor,
    {
        self.cursor
    }
}

/// Adds a cell with the value `tile` at the grid index `position` to the
/// arena, and returns its identifier. The cell is drawn thin and black and
/// carries no flag.
pub fn spawn_tile(tiles: &mut Vec<Tile>, states: &mut Vec<TileState>, tile: Tile, position: UVec2) -> (id:
    CellId)
    requires
        old(tiles)@.len() == old(states)@.len(),
    ensures
        id.0 == old(tiles)@.len(),
        final(tiles)@ == old(tiles)@.push(tile),
        final(states)@ == old(states)@.push(TileState::spawned(position)),
{
    let id = CellId(tiles.len());
    tiles.push(tile);
    states.push(
        TileState {
            position: TilePosition(position),
            hovered: false,
            focused: false,
            needs_style_update: false,
            stroke: Stroke::new(Color::Black, THIN),
        },
    );
    id
}

/// Creates the cells of a grid that has none: one empty cell for each index,
/// column by column. A grid that has its cells stays as it is.
pub fn ladder_init_system(ladder: &mut Ladder)
    requires
        old(ladder).wf(),
    ensures
        final(ladder)@ =~= old(ladder)@.initialized(),
        final(ladder).wf(),
        final(ladder)@.tilemap.is_filled(),
        final(ladder)@.states.len() == final(ladder)@.tilemap.size.x * final(ladder)@.tilemap.size.y,
{
    if !ladder.tilemap.is_empty() {
        return ;
    }
    let ghost before = ladder@;
    let ghost after = ladder@.initialized();
    let width: u32 = ladder.tilemap.width();
    let height: u32 = ladder.tilemap.height();
    let ghost w = width as int;
    let ghost h = height as int;
    let mut columns: Vec<Vec<CellId>> = Vec::new();
    let mut x: u32 = 0;
    assert(ladder.states@.len() == 0 && ladder.tiles@.len() == 0) by {
        assert(before.tilemap.tiles.len() == 0);
        assert(before.tiles.len() == before.states.len());
    }
    while x < width
        invariant
            x <= width,
            w == width,
            h == height,
            ladder.tilemap@ == before.tilemap,
            ladder.mouse_tile_position == before.mouse_tile_position,
            ladder.hovered_ref == before.hovered_ref,
            ladder.focused_ref == before.focused_ref,
            ladder.cursor == before.cursor,
            ladder.tiles@.len() == ladder.states@.len(),
            ladder.states@.len() == x * h,
            columns@.len() == x,
            forall|x1: int, y1: int|
                0 <= x1 < x && 0 <= y1 < h ==> columns@[x1]@.len() == h && #[trigger] columns@[x1]@[y1] == CellId(
                    (x1 * h + y1) as usize,
                ),
            forall|x1: int| 0 <= x1 < x ==> (#[trigger] columns@[x1])@.len() == h,
            forall|id: int| 0 <= id < ladder.tiles@.len() ==> (#[trigger] ladder.tiles@[id])@ == TileView::Empty,
            forall|id: int|
                0 <= id < ladder.states@.len() ==> #[trigger] ladder.states@[id] == TileState::spawned(
                    UVec2 { x: (id / h) as u32, y: (id % h) as u32 },
                ),
        decreases width - x,
    {
        let mut column: Vec<CellId> = Vec::new();
        let mut y: u32 = 0;
        while y < height
            invariant
                x < width,
                y <= height,
                w == width,
                h == height,
                ladder.tilemap@ == before.tilemap,
                ladder.mouse_tile_position == before.mouse_tile_position,
                ladder.hovered_ref == before.hovered_ref,
                ladder.focused_ref == before.focused_ref,
                ladder.cursor == before.cursor,
                ladder.tiles@.len() == ladder.states@.len(),
                ladder.states@.len() == x * h + y,
                column@.len() == y,
                forall|y1: int| 0 <= y1 < y ==> #[trigger] column@[y1] == CellId((x * h + y1) as usize),
                forall|id: int|
                    0 <= id < ladder.tiles@.len() ==> (#[trigger] ladder.tiles@[id])@ == TileView::Empty,
                forall|id: int|
                    0 <= id < ladder.states@.len() ==> #[trigger] ladder.states@[id] == TileState::spawned(
                        UVec2 { x: (id / h) as u32, y: (id % h) as u32 },
                    ),
            decreases height - y,
        {
            proof {
                lemma_fundamental_div_mod_converse(x * h + y, h, x as int, y as int);
            }
            let id = spawn_tile(&mut ladder.tiles, &mut ladder.states, Tile::default(), UVec2 { x, y });
            column.push(id);
            y += 1;
        }
        columns.push(column);
        proof {
            assert((x + 1) * h == x * h + h) by (nonlinear_arith);
        }
        x += 1;
    }
    ladder.tilemap.tiles = columns;
    proof {
        assert(ladder@.tilemap.tiles =~= after.tilemap.tiles) by {
            assert forall|x1: int| 0 <= x1 < w implies #[trigger] ladder@.tilemap.tiles[x1]
                =~= after.tilemap.tiles[x1] by {
                assert(columns@[x1]@.len() == h);
                assert forall|y1: int| 0 <= y1 < h implies ladder@.tilemap.tiles[x1][y1]
                    == after.tilemap.tiles[x1][y1] by {
                    assert(columns@[x1]@[y1] == CellId((x1 * h + y1) as usize));
                }
            }
        }
        assert(ladder@.tilemap =~= after.tilemap);
        assert(ladder@.tiles =~= after.tiles);
        assert(ladder@.states =~= after.states);
        assert(ladder.states@.len() == ladder.states.len());
        lemma_initialized_wf(before);
    }
}

} // verus!
