//! The passes that run once per tick on a grid: they follow the pointer,
//! move the hover and the focus, and bring the strokes up to date.

use vstd::prelude::*;
use crate::ladder::{lemma_one_hover_one_focus, FocusedRef, HoveredRef, Ladder, LadderView, TileMapCursor};
use crate::math::{I64Vec2, IVec2, UVec2, TILE_SIZE};
use crate::style::{style_for, tile_style};
use crate::tilemap::{CellId, MouseTilePosition, TilePosition};

verus! {

impl LadderView {
    /// The grid with the hover flag of the cell `id` set to `on`.
    pub open spec fn with_hover_flag(self, id: int, on: bool) -> LadderView {
        LadderView { states: self.states.update(id, self.states[id].with_hovered(on)), ..self }
    }

    /// The grid with the focus flag of the cell `id` set to `on`.
    pub open spec fn with_focus_flag(self, id: int, on: bool) -> LadderView {
        LadderView { states: self.states.update(id, self.states[id].with_focused(on)), ..self }
    }

    /// The grid with the focus flag of the cell that `focused` names cleared.
    pub open spec fn unfocused(self, focused: Option<FocusedRef>) -> LadderView {
        match focused {
            Some(previous) => self.with_focus_flag(previous.0.0 as int, false),
            None => self,
        }
    }

    /// The grid after the pointer was seen at the world point `cursor`, for
    /// the grid placed at `position`: the index under the pointer is
    /// recorded, or dropped when the pointer is off the grid. Without a
    /// pointer position nothing changes.
    pub open spec fn mouse_moved(self, position: IVec2, cursor: Option<IVec2>) -> LadderView {
        match cursor {
            None => self,
            Some(point) => LadderView {
                mouse_tile_position: match self.tilemap.pixel_to_tile_position(position, point) {
                    Some(index) => Some(MouseTilePosition(index)),
                    None => None,
                },
                ..self
            },
        }
    }

    /// The grid after the overlay has followed the pointer: while an index
    /// is recorded under the pointer, the overlay stands there.
    pub open spec fn cursor_followed(self) -> LadderView {
        match self.mouse_tile_position {
            Some(mouse) => LadderView {
                cursor: Some(TileMapCursor { position: TilePosition(mouse.0) }),
                ..self
            },
            None => self,
        }
    }

    /// The grid after the overlay was taken away because the pointer has
    /// left the grid.
    pub open spec fn cursor_removed(self) -> LadderView {
        match self.mouse_tile_position {
            Some(_) => self,
            None => LadderView { cursor: None, ..self },
        }
    }

    /// The grid after the hover has followed the pointer: while an index is
    /// recorded under the pointer, the cell there carries the hover flag and
    /// the grid refers to it, and the cell that carried the flag before has
    /// lost it.
    pub open spec fn hover_followed(self) -> LadderView {
        match self.mouse_tile_position {
            None => self,
            Some(mouse) => match self.tilemap.get_tile(mouse.0) {
                None => self,
                Some(cell) => if self.hovered_ref == Some(HoveredRef(cell)) {
                    self
                } else {
                    let cleared = match self.hovered_ref {
                        Some(previous) => self.with_hover_flag(previous.0.0 as int, false),
                        None => self,
                    };
                    LadderView {
                        hovered_ref: Some(HoveredRef(cell)),
                        ..cleared.with_hover_flag(cell.0 as int, true)
                    }
                },
            },
        }
    }

    /// The grid after the hover was dropped because the pointer has left the
    /// grid: the flag is cleared and the reference is gone.
    pub open spec fn hover_removed(self) -> LadderView {
        match (self.mouse_tile_position, self.hovered_ref) {
            (None, Some(hovered)) => LadderView {
                hovered_ref: None,
                ..self.with_hover_flag(hovered.0.0 as int, false)
            },
            _ => self,
        }
    }

    /// The grid after the mouse buttons were pressed as given, while a cell
    /// is hovered. A left click takes the focus from the cell that the grid
    /// refers to and gives it to the hovered cell, to which the grid then
    /// refers. A right click clears the focus flag of the cell that the grid
    /// referred to when the tick began, and leaves the reference. With both
    /// buttons the left click comes first. Without a hovered cell nothing
    /// changes.
    pub open spec fn clicked(self, left: bool, right: bool) -> LadderView {
        match self.hovered_ref {
            None => self,
            Some(hovered) => {
                let previous = self.focused_ref;
                let after_left = if left {
                    LadderView {
                        focused_ref: Some(FocusedRef(hovered.0)),
                        ..self.unfocused(previous).with_focus_flag(hovered.0.0 as int, true)
                    }
                } else {
                    self
                };
                if right {
                    after_left.unfocused(previous)
                } else {
                    after_left
                }
            },
        }
    }

    /// The grid after every pending stroke update has been carried out.
    pub open spec fn restyled(self) -> LadderView {
        LadderView {
            states: Seq::new(self.states.len(), |id: int| self.states[id].restyled()),
            ..self
        }
    }

    /// The grid after one pointer event: the pointer was seen at the world
    /// point `cursor`, for the grid placed at `position`, and the overlay and
    /// the hover have followed it.
    pub open spec fn pointer_moved(self, position: IVec2, cursor: Option<IVec2>) -> LadderView {
        self.mouse_moved(position, cursor).cursor_followed().cursor_removed().hover_followed().hover_removed()
    }

    /// The grid after the pointer events `moves`, each with the world point
    /// of the grid's origin and that of the pointer, in turn.
    pub open spec fn after_pointer_moves(self, moves: Seq<(IVec2, Option<IVec2>)>) -> LadderView
        decreases moves.len(),
    {
        if moves.len() == 0 {
            self
        } else {
            self.after_pointer_moves(moves.drop_last()).pointer_moved(moves.last().0, moves.last().1)
        }
    }

    /// Whether the cell `id` waits for a stroke update.
    pub open spec fn needs_style_update(self, id: int) -> bool {
        0 <= id < self.states.len() && self.states[id].needs_style_update
    }
}

/// Setting or clearing a hover flag leaves everything but that flag and the
/// cell's stroke mark as it was.
pub proof fn lemma_hover_flag_frame(ladder: LadderView, id: int, on: bool)
    requires
        ladder.tilemap.wf(),
        ladder.grid_resolves(),
        ladder.cells_resolve(),
        ladder.focus_agrees(),
        ladder.strokes_agree(),
        0 <= id < ladder.states.len(),
    ensures
        ({
            let after = ladder.with_hover_flag(id, on);
            &&& after.tilemap == ladder.tilemap
            &&& after.tiles == ladder.tiles
            &&& after.states.len() == ladder.states.len()
            &&& after.grid_resolves()
            &&& after.cells_resolve()
            &&& after.focus_agrees()
            &&& after.strokes_agree()
            &&& forall|other: int|
                0 <= other < ladder.states.len() && other != id ==> after.states[other] == ladder.states[other]
            &&& after.states[id].hovered == on
        }),
{
    let after = ladder.with_hover_flag(id, on);
    assert forall|x: int, y: int|
        0 <= x < after.tilemap.tiles.len() && 0 <= y < after.tilemap.size.y implies {
        &&& (#[trigger] after.tilemap.tiles[x][y]).0 < after.states.len()
        &&& after.states[after.tilemap.tiles[x][y].0 as int].position == TilePosition(
            UVec2 { x: x as u32, y: y as u32 },
        )
    } by {
        let cell = ladder.tilemap.tiles[x][y];
        assert(ladder.states[cell.0 as int].position == TilePosition(UVec2 { x: x as u32, y: y as u32 }));
    }
    assert forall|other: int| 0 <= other < after.states.len() implies {
        let position = (#[trigger] after.states[other]).position.0;
        &&& position.x < after.tilemap.tiles.len()
        &&& position.y < after.tilemap.size.y
        &&& after.tilemap.tiles[position.x as int][position.y as int] == CellId(other as usize)
    } by {
        assert(ladder.states[other].position == after.states[other].position);
    }
    assert forall|other: int| 0 <= other < after.states.len() && (#[trigger] after.states[other]).focused implies after.focused_id()
        == Some(other) by {
        assert(ladder.states[other].focused == after.states[other].focused);
    }
    assert forall|other: int| 0 <= other < after.states.len() implies (#[trigger] after.states[other]).styled() by {
        assert(ladder.states[other].styled());
    }
}

/// Setting or clearing a focus flag leaves everything but that flag and the
/// cell's stroke mark as it was.
pub proof fn lemma_focus_flag_frame(ladder: LadderView, id: int, on: bool)
    requires
        ladder.tilemap.wf(),
        ladder.grid_resolves(),
        ladder.cells_resolve(),
        ladder.hover_agrees(),
        ladder.strokes_agree(),
        0 <= id < ladder.states.len(),
    ensures
        ({
            let after = ladder.with_focus_flag(id, on);
            &&& after.tilemap == ladder.tilemap
            &&& after.tiles == ladder.tiles
            &&& after.states.len() == ladder.states.len()
            &&& after.grid_resolves()
            &&& after.cells_resolve()
            &&& after.hover_agrees()
            &&& after.strokes_agree()
            &&& forall|other: int|
                0 <= other < ladder.states.len() && other != id ==> after.states[other] == ladder.states[other]
            &&& after.states[id].focused == on
        }),
{
    let after = ladder.with_focus_flag(id, on);
    assert forall|x: int, y: int|
        0 <= x < after.tilemap.tiles.len() && 0 <= y < after.tilemap.size.y implies {
        &&& (#[trigger] after.tilemap.tiles[x][y]).0 < after.states.len()
        &&& after.states[after.tilemap.tiles[x][y].0 as int].position == TilePosition(
            UVec2 { x: x as u32, y: y as u32 },
        )
    } by {
        let cell = ladder.tilemap.tiles[x][y];
        assert(ladder.states[cell.0 as int].position == TilePosition(UVec2 { x: x as u32, y: y as u32 }));
    }
    assert forall|other: int| 0 <= other < after.states.len() implies {
        let position = (#[trigger] after.states[other]).position.0;
        &&& position.x < after.tilemap.tiles.len()
        &&& position.y < after.tilemap.size.y
        &&& after.tilemap.tiles[position.x as int][position.y as int] == CellId(other as usize)
    } by {
        assert(ladder.states[other].position == after.states[other].position);
    }
    assert forall|other: int| 0 <= other < after.states.len() implies ((#[trigger] after.states[other]).hovered
        <==> after.hovered_id() == Some(other)) by {
        assert(ladder.states[other].hovered == after.states[other].hovered);
    }
    assert forall|other: int| 0 <= other < after.states.len() implies (#[trigger] after.states[other]).styled() by {
        assert(ladder.states[other].styled());
    }
}

/// Recording the index under the pointer keeps the invariant.
pub proof fn lemma_mouse_moved_wf(ladder: LadderView, position: IVec2, cursor: Option<IVec2>)
    requires
        ladder.wf(),
    ensures
        ladder.mouse_moved(position, cursor).wf(),
{
    let after = ladder.mouse_moved(position, cursor);
    assert(after.states == ladder.states);
    if let Some(point) = cursor {
        if let Some(index) = ladder.tilemap.pixel_to_tile_position(position, point) {
            let dx = point.x - position.x;
            let dy = point.y - position.y;
            assert(0 <= dx < ladder.tilemap.size.x * 64 && 0 <= dy < ladder.tilemap.size.y * 64);
            assert(0 <= dx / 64 < ladder.tilemap.size.x && 0 <= dy / 64 < ladder.tilemap.size.y);
        }
    }
}

/// Moving or removing the overlay keeps the invariant.
pub proof fn lemma_cursor_wf(ladder: LadderView)
    requires
        ladder.wf(),
    ensures
        ladder.cursor_followed().wf(),
        ladder.cursor_removed().wf(),
{
    assert(ladder.cursor_followed().states == ladder.states);
    assert(ladder.cursor_removed().states == ladder.states);
}

/// Moving the hover to the cell under the pointer keeps the invariant.
pub proof fn lemma_hover_followed_wf(ladder: LadderView)
    requires
        ladder.wf(),
    ensures
        ladder.hover_followed().wf(),
{
    let after = ladder.hover_followed();
    if let Some(mouse) = ladder.mouse_tile_position {
        if let Some(cell) = ladder.tilemap.get_tile(mouse.0) {
            if ladder.hovered_ref != Some(HoveredRef(cell)) {
                assert(cell == ladder.tilemap.tiles[mouse.0.x as int][mouse.0.y as int]);
                assert(cell.0 < ladder.states.len());
                let cleared = match ladder.hovered_ref {
                    Some(previous) => ladder.with_hover_flag(previous.0.0 as int, false),
                    None => ladder,
                };
                if let Some(previous) = ladder.hovered_ref {
                    lemma_hover_flag_frame(ladder, previous.0.0 as int, false);
                }
                assert forall|id: int| 0 <= id < cleared.states.len() implies !(#[trigger] cleared.states[id]).hovered by {
                    assert(ladder.states[id].hovered <==> ladder.hovered_id() == Some(id));
                }
                let cleared_unref = LadderView { hovered_ref: None, ..cleared };
                assert(cleared_unref.wf());
                lemma_hover_flag_frame(cleared_unref, cell.0 as int, true);
                assert(after.states == cleared_unref.with_hover_flag(cell.0 as int, true).states);
                assert(after.wf());
            }
        }
    }
}

/// Dropping the hover when the pointer has left the grid keeps the
/// invariant.
pub proof fn lemma_hover_removed_wf(ladder: LadderView)
    requires
        ladder.wf(),
    ensures
        ladder.hover_removed().wf(),
{
    let after = ladder.hover_removed();
    if let (None, Some(hovered)) = (ladder.mouse_tile_position, ladder.hovered_ref) {
        lemma_hover_flag_frame(ladder, hovered.0.0 as int, false);
        assert forall|id: int| 0 <= id < after.states.len() implies !(#[trigger] after.states[id]).hovered by {
            assert(ladder.states[id].hovered <==> ladder.hovered_id() == Some(id));
        }
    }
}

/// Pressing the mouse buttons keeps the invariant.
pub proof fn lemma_clicked_wf(ladder: LadderView, left: bool, right: bool)
    requires
        ladder.wf(),
    ensures
        ladder.clicked(left, right).wf(),
{
    let after = ladder.clicked(left, right);
    if let Some(hovered) = ladder.hovered_ref {
        let previous = ladder.focused_ref;
        let target = hovered.0.0 as int;
        let after_left = if left {
            let dropped = ladder.unfocused(previous);
            if let Some(p) = previous {
                lemma_focus_flag_frame(ladder, p.0.0 as int, false);
            }
            assert forall|id: int| 0 <= id < dropped.states.len() implies !(#[trigger] dropped.states[id]).focused by {
                assert(ladder.states[id].focused ==> ladder.focused_id() == Some(id));
            }
            lemma_focus_flag_frame(dropped, target, true);
            let taken = LadderView {
                focused_ref: Some(FocusedRef(hovered.0)),
                ..dropped.with_focus_flag(target, true)
            };
            assert forall|id: int| 0 <= id < taken.states.len() && (#[trigger] taken.states[id]).focused implies taken.focused_id()
                == Some(id) by {
                if id != target {
                    assert(taken.states[id] == dropped.states[id]);
                }
            }
            assert(taken.wf());
            taken
        } else {
            ladder
        };
        assert(after_left.wf());
        if right {
            if let Some(p) = previous {
                lemma_focus_flag_frame(after_left, p.0.0 as int, false);
                assert forall|id: int| 0 <= id < after.states.len() && (#[trigger] after.states[id]).focused implies after.focused_id()
                    == Some(id) by {
                    if id != p.0.0 as int {
                        assert(after.states[id] == after_left.states[id]);
                    }
                }
            }
        }
    }
}

/// Carrying out the pending stroke updates keeps the invariant, and leaves
/// every stroke as the flags ask for it.
pub proof fn lemma_restyled_wf(ladder: LadderView)
    requires
        ladder.wf(),
    ensures
        ladder.restyled().wf(),
        forall|id: int|
            0 <= id < ladder.states.len() ==> {
                let state = #[trigger] ladder.restyled().states[id];
                &&& !state.needs_style_update
                &&& state.stroke == style_for(state.hovered, state.focused)
            },
{
    let after = ladder.restyled();
    assert forall|x: int, y: int|
        0 <= x < after.tilemap.tiles.len() && 0 <= y < after.tilemap.size.y implies {
        &&& (#[trigger] after.tilemap.tiles[x][y]).0 < after.states.len()
        &&& after.states[after.tilemap.tiles[x][y].0 as int].position == TilePosition(
            UVec2 { x: x as u32, y: y as u32 },
        )
    } by {
        let cell = ladder.tilemap.tiles[x][y];
        assert(ladder.states[cell.0 as int].position == TilePosition(UVec2 { x: x as u32, y: y as u32 }));
    }
    assert forall|id: int| 0 <= id < after.states.len() implies {
        let position = (#[trigger] after.states[id]).position.0;
        &&& position.x < after.tilemap.tiles.len()
        &&& position.y < after.tilemap.size.y
        &&& after.tilemap.tiles[position.x as int][position.y as int] == CellId(id as usize)
    } by {
        assert(ladder.states[id].position == after.states[id].position);
    }
    assert forall|id: int| 0 <= id < after.states.len() implies ((#[trigger] after.states[id]).hovered
        <==> after.hovered_id() == Some(id)) by {
        assert(ladder.states[id].hovered == after.states[id].hovered);
    }
    assert forall|id: int| 0 <= id < after.states.len() && (#[trigger] after.states[id]).focused implies after.focused_id()
        == Some(id) by {
        assert(ladder.states[id].focused == after.states[id].focused);
    }
    assert forall|id: int| 0 <= id < after.states.len() implies (#[trigger] after.states[id]).styled() by {
        assert(ladder.states[id].styled());
    }
    assert forall|id: int| 0 <= id < ladder.states.len() implies {
        let state = #[trigger] ladder.restyled().states[id];
        &&& !state.needs_style_update
        &&& state.stroke == style_for(state.hovered, state.focused)
    } by {
        assert(ladder.states[id].styled());
    }
}

/// One pointer event keeps the invariant.
pub proof fn lemma_pointer_moved_wf(ladder: LadderView, position: IVec2, cursor: Option<IVec2>)
    requires
        ladder.wf(),
    ensures
        ladder.pointer_moved(position, cursor).wf(),
{
    let moved = ladder.mouse_moved(position, cursor);
    lemma_mouse_moved_wf(ladder, position, cursor);
    lemma_cursor_wf(moved);
    lemma_cursor_wf(moved.cursor_followed());
    let shown = moved.cursor_followed().cursor_removed();
    lemma_hover_followed_wf(shown);
    lemma_hover_removed_wf(shown.hover_followed());
}

/// After any sequence of pointer events the grid keeps its invariant, so
/// that at most one cell carries the hover flag, and a cell carries it
/// exactly if the grid's hover reference names it; without a reference no
/// cell carries it.
pub proof fn lemma_hover_after_pointer_moves(ladder: LadderView, moves: Seq<(IVec2, Option<IVec2>)>)
    requires
        ladder.wf(),
    ensures
        ({
            let after = ladder.after_pointer_moves(moves);
            &&& after.wf()
            &&& forall|a: int, b: int|
                0 <= a < after.states.len() && 0 <= b < after.states.len() && (#[trigger] after.states[a]).hovered
                    && (#[trigger] after.states[b]).hovered ==> a == b
            &&& forall|id: int|
                0 <= id < after.states.len() ==> ((#[trigger] after.states[id]).hovered <==> after.hovered_ref
                    == Some(HoveredRef(CellId(id as usize))))
            &&& after.hovered_ref matches Some(hovered) ==> hovered.0.0 < after.states.len()
                && after.states[hovered.0.0 as int].hovered
        }),
    decreases moves.len(),
{
    if moves.len() > 0 {
        lemma_hover_after_pointer_moves(ladder, moves.drop_last());
        lemma_pointer_moved_wf(ladder.after_pointer_moves(moves.drop_last()), moves.last().0, moves.last().1);
    }
    lemma_one_hover_one_focus(ladder.after_pointer_moves(moves));
}

/// After a pointer event on a grid that has its cells, the hovered cell is
/// the one under the pointer: the grid's hover reference names the cell at
/// the recorded index, or is absent when no index is recorded.
pub proof fn lemma_pointer_moved_hover(ladder: LadderView, position: IVec2, cursor: Option<IVec2>)
    requires
        ladder.wf(),
        ladder.tilemap.is_filled(),
    ensures
        ({
            let after = ladder.pointer_moved(position, cursor);
            &&& after.mouse_tile_position == ladder.mouse_moved(position, cursor).mouse_tile_position
            &&& after.mouse_tile_position matches Some(mouse) ==> after.tilemap.get_tile(mouse.0) matches Some(
                cell,
            ) && after.hovered_ref == Some(HoveredRef(cell)) && after.cursor == Some(
                TileMapCursor { position: TilePosition(mouse.0) },
            )
            &&& after.mouse_tile_position is None && cursor is Some ==> after.hovered_ref is None && after.cursor is None
        }),
{
    let moved = ladder.mouse_moved(position, cursor);
    lemma_mouse_moved_wf(ladder, position, cursor);
    lemma_cursor_wf(moved);
    lemma_cursor_wf(moved.cursor_followed());
    let shown = moved.cursor_followed().cursor_removed();
    lemma_hover_followed_wf(shown);
}

/// Sets or clears the hover flag of a cell.
fn set_hovered(ladder: &mut Ladder, cell: CellId, on: bool)
    requires
        cell.0 < old(ladder)@.states.len(),
    ensures
        final(ladder)@ =~= old(ladder)@.with_hover_flag(cell.0 as int, on),
{
    if ladder.states[cell.0].hovered != on {
        ladder.states[cell.0].hovered = on;
        ladder.states[cell.0].needs_style_update = true;
    }
}

/// Sets or clears the focus flag of a cell.
fn set_focused(ladder: &mut Ladder, cell: CellId, on: bool)
    requires
        cell.0 < old(ladder)@.states.len(),
    ensures
        final(ladder)@ =~= old(ladder)@.with_focus_flag(cell.0 as int, on),
{
    if ladder.states[cell.0].focused != on {
        ladder.states[cell.0].focused = on;
        ladder.states[cell.0].needs_style_update = true;
    }
}

/// The overlay that marks the grid index `tile_position`.
pub fn spawn_tile_cursor(tile_position: UVec2) -> (cursor: TileMapCursor)
    ensures
        cursor == (TileMapCursor { position: TilePosition(tile_position) }),
{
    TileMapCursor { position: TilePosition(tile_position) }
}

impl TileMapCursor {
    /// Where the overlay is drawn, in pixels from the grid's origin.
    pub fn pixel_offset(&self) -> (offset: I64Vec2)
        ensures
            offset.x == self.position.0.x * TILE_SIZE,
            offset.y == self.position.0.y * TILE_SIZE,
    {
        assert(TILE_SIZE == 64);
        assert(self.position.0.x * 64 <= 0x3f_ffff_ffc0 && self.position.0.y * 64 <= 0x3f_ffff_ffc0);
        I64Vec2 {
            x: self.position.0.x as i64 * TILE_SIZE as i64,
            y: self.position.0.y as i64 * TILE_SIZE as i64,
        }
    }
}

/// Records the grid index under the pointer. `position` is the world point
/// of the grid's origin, `cursor_world_position` that of the pointer, if it
/// has one. The index is recorded while the pointer is on the grid and
/// dropped when it is not; without a pointer position nothing changes.
pub fn tilemap_mouse_position_system(
    ladder: &mut Ladder,
    position: IVec2,
    cursor_world_position: Option<IVec2>,
)
    requires
        old(ladder).wf(),
    ensures
        final(ladder)@ =~= old(ladder)@.mouse_moved(position, cursor_world_position),
        final(ladder).wf(),
{
    proof {
        lemma_mouse_moved_wf(ladder@, position, cursor_world_position);
    }
    let cursor = match cursor_world_position {
        Some(cursor) => cursor,
        None => {
            return ;
        },
    };
    let new_tile_position = ladder.tilemap.pixel_to_tile_position(position, cursor);
    match (ladder.mouse_tile_position, new_tile_position) {
        (None, None) => {},
        (None, Some(tile_position)) => {
            ladder.mouse_tile_position = Some(MouseTilePosition(tile_position));
        },
        (Some(_), None) => {
            ladder.mouse_tile_position = None;
        },
        (Some(_), Some(tile_position)) => {
            ladder.mouse_tile_position = Some(MouseTilePosition(tile_position));
        },
    }
}

/// Lets the overlay follow the pointer: while an index is recorded under the
/// pointer, the overlay is created there or moved there.
pub fn tilemap_cursor_system(ladder: &mut Ladder)
    requires
        old(ladder).wf(),
    ensures
        final(ladder)@ =~= old(ladder)@.cursor_followed(),
        final(ladder).wf(),
{
    proof {
        lemma_cursor_wf(ladder@);
    }
    match ladder.mouse_tile_position {
        Some(mouse_tile_position) => {
            match ladder.cursor {
                None => {
                    ladder.cursor = Some(spawn_tile_cursor(mouse_tile_position.0));
                },
                Some(mut cursor) => {
                    cursor.position = TilePosition(mouse_tile_position.0);
                    ladder.cursor = Some(cursor);
                },
            }
        },
        None => {},
    }
}

/// Takes the overlay away once no index is recorded under the pointer.
pub fn tilemap_cursor_removal_system(ladder: &mut Ladder)
    requires
        old(ladder).wf(),
    ensures
        final(ladder)@ =~= old(ladder)@.cursor_removed(),
        final(ladder).wf(),
{
    proof {
        lemma_cursor_wf(ladder@);
    }
    if ladder.mouse_tile_position.is_none() {
        ladder.cursor = None;
    }
}

/// Lets the hover follow the pointer: while an index is recorded under the
/// pointer, the cell there gets the hover flag and the grid's reference, and
/// the cell that had them loses the flag. The cell under the pointer must
/// exist, that is, the grid must have its cells.
pub fn tile_hover_system(ladder: &mut Ladder)
    requires
        old(ladder).wf(),
        old(ladder)@.mouse_tile_position matches Some(mouse) ==> old(ladder)@.tilemap.get_tile(mouse.0) is Some,
    ensures
        final(ladder)@ =~= old(ladder)@.hover_followed(),
        final(ladder).wf(),
{
    proof {
        lemma_hover_followed_wf(ladder@);
    }
    let mouse_tile_position = match ladder.mouse_tile_position {
        Some(mouse_tile_position) => mouse_tile_position,
        None => {
            return ;
        },
    };
    let tile = match ladder.tilemap.get_tile(mouse_tile_position.0) {
        Some(tile) => tile,
        None => {
            return ;
        },
    };
    assert(tile == ladder@.tilemap.tiles[mouse_tile_position.0.x as int][mouse_tile_position.0.y as int]);
    match ladder.hovered_ref {
        Some(hovered_ref) => {
            if hovered_ref.0 != tile {
                set_hovered(ladder, hovered_ref.0, false);
                ladder.hovered_ref = Some(HoveredRef(tile));
                set_hovered(ladder, tile, true);
            }
        },
        None => {
            ladder.hovered_ref = Some(HoveredRef(tile));
            set_hovered(ladder, tile, true);
        },
    }
}

/// Drops the hover once no index is recorded under the pointer: the hovered
/// cell loses its flag and the grid its reference.
pub fn tilemap_hover_removal_system(ladder: &mut Ladder)
    requires
        old(ladder).wf(),
    ensures
        final(ladder)@ =~= old(ladder)@.hover_removed(),
        final(ladder).wf(),
{
    proof {
        lemma_hover_removed_wf(ladder@);
    }
    if ladder.mouse_tile_position.is_some() {
        return ;
    }
    match ladder.hovered_ref {
        Some(hovered_ref) => {
            set_hovered(ladder, hovered_ref.0, false);
            ladder.hovered_ref = None;
        },
        None => {},
    }
}

/// Moves the focus on a mouse click. `left` and `right` say which buttons
/// went down in this tick. Nothing happens unless a cell is hovered. A left
/// click gives the focus to the hovered cell and takes it from the cell that
/// the grid referred to; a right click clears the focus flag of the cell
/// that the grid referred to when the tick began, and keeps the reference.
pub fn ladder_tile_mouse_system(ladder: &mut Ladder, left: bool, right: bool)
    requires
        old(ladder).wf(),
    ensures
        final(ladder)@ =~= old(ladder)@.clicked(left, right),
        final(ladder).wf(),
{
    proof {
        lemma_clicked_wf(ladder@, left, right);
    }
    let tile = match ladder.hovered_ref {
        Some(hovered_ref) => hovered_ref.0,
        None => {
            return ;
        },
    };
    let maybe_focused_ref = ladder.focused_ref;
    if left {
        match maybe_focused_ref {
            Some(focused_ref) => {
                set_focused(ladder, focused_ref.0, false);
            },
            None => {},
        }
        set_focused(ladder, tile, true);
        ladder.focused_ref = Some(FocusedRef(tile));
    }
    if right {
        match maybe_focused_ref {
            Some(focused_ref) => {
                set_focused(ladder, focused_ref.0, false);
            },
            None => {},
        }
    }
}

/// Brings the strokes up to date: every cell that waits for a stroke update
/// gets the stroke that its flags ask for, and its mark is cleared. Returns
/// the cells whose stroke was set, in increasing order.
pub fn tile_style_system(ladder: &mut Ladder) -> (refreshed: Vec<CellId>)
    requires
        old(ladder).wf(),
    ensures
        final(ladder)@ =~= old(ladder)@.restyled(),
        final(ladder).wf(),
        forall|cell: CellId| refreshed@.contains(cell) <==> old(ladder)@.needs_style_update(cell.0 as int),
        forall|i: int, j: int| 0 <= i < j < refreshed@.len() ==> refreshed@[i].0 < refreshed@[j].0,
        forall|id: int|
            0 <= id < final(ladder)@.states.len() ==> {
                let state = #[trigger] final(ladder)@.states[id];
                &&& !state.needs_style_update
                &&& state.stroke == style_for(state.hovered, state.focused)
            },
{
    let ghost before = ladder@;
    proof {
        lemma_restyled_wf(before);
    }
    let mut refreshed: Vec<CellId> = Vec::new();
    let mut id: usize = 0;
    while id < ladder.states.len()
        invariant
            id <= ladder.states@.len(),
            ladder.states@.len() == before.states.len(),
            ladder.tilemap@ == before.tilemap,
            ladder@.tiles == before.tiles,
            ladder.mouse_tile_position == before.mouse_tile_position,
            ladder.hovered_ref == before.hovered_ref,
            ladder.focused_ref == before.focused_ref,
            ladder.cursor == before.cursor,
            forall|i: int| 0 <= i < id ==> #[trigger] ladder.states@[i] == before.states[i].restyled(),
            forall|i: int| id <= i < before.states.len() ==> #[trigger] ladder.states@[i] == before.states[i],
            forall|k: int|
                0 <= k < refreshed@.len() ==> (#[trigger] refreshed@[k]).0 < id && before.needs_style_update(
                    refreshed@[k].0 as int,
                ),
            forall|i: int|
                0 <= i < id && before.needs_style_update(i) ==> refreshed@.contains(CellId(i as usize)),
            forall|i: int, j: int| 0 <= i < j < refreshed@.len() ==> refreshed@[i].0 < refreshed@[j].0,
        decreases ladder.states@.len() - id,
    {
        if ladder.states[id].needs_style_update {
            let ghost earlier = refreshed@;
            let hovered = ladder.states[id].hovered;
            let focused = ladder.states[id].focused;
            ladder.states[id].needs_style_update = false;
            ladder.states[id].stroke = tile_style(hovered, focused);
            refreshed.push(CellId(id));
            proof {
                assert(refreshed@[earlier.len() as int] == CellId(id));
                assert forall|i: int| 0 <= i < id + 1 && before.needs_style_update(i) implies refreshed@.contains(
                    CellId(i as usize),
                ) by {
                    if i < id {
                        let k = choose|k: int| 0 <= k < earlier.len() && earlier[k] == CellId(i as usize);
                        assert(refreshed@[k] == CellId(i as usize));
                    }
                }
            }
        }
        id += 1;
    }
    proof {
        assert(ladder@.states =~= before.restyled().states);
        assert forall|cell: CellId| refreshed@.contains(cell) <==> before.needs_style_update(cell.0 as int) by {
            if before.needs_style_update(cell.0 as int) {
                assert(refreshed@.contains(CellId(cell.0 as int as usize)));
            }
        }
    }
    refreshed
}

} // verus!
