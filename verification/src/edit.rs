//! The passes that change the values of cells: editing the hovered cell with
//! the mouse, and resetting the whole grid to its two power rails.

use vstd::prelude::*;
use crate::ladder::{Ladder, LadderView};
use crate::math::UVec2;
use crate::tile::{BoolElement, BoolElementView, ContactOrCoil, Polarity, Tile, TileView, Wire};
use crate::tilemap::CellId;

verus! {

impl TileView {
    /// The element that a left click places: a coil in the coil column, a
    /// contact elsewhere, normally open, with the address `Z09`.
    pub open spec fn placed(is_coil_column: bool) -> TileView {
        TileView::BoolElement(
            BoolElementView {
                contact_or_coil: if is_coil_column {
                    ContactOrCoil::Coil
                } else {
                    ContactOrCoil::Contact
                },
                address: "Z09"@,
                polarity: Polarity::NO,
            },
        )
    }

    /// The cell after a right click: whatever it holds is removed, and an
    /// empty cell gets a horizontal wire unless it is to stay empty.
    pub open spec fn toggled(self, stays_empty: bool) -> TileView {
        match self {
            TileView::Empty => if stays_empty {
                TileView::Empty
            } else {
                TileView::Wire(Wire::Horz)
            },
            _ => TileView::Empty,
        }
    }

    /// The cell after the scroll events `deltas`, applied in turn.
    pub open spec fn scrolled_all(self, deltas: Seq<i32>) -> TileView
        decreases deltas.len(),
    {
        if deltas.len() == 0 {
            self
        } else {
            self.scrolled_all(deltas.drop_last()).scrolled(deltas.last() as int)
        }
    }

    /// The value that resetting the grid gives the cell at `position`: a
    /// vertical wire in the first and in the last column, nothing between.
    pub open spec fn rail(position: UVec2, size: UVec2) -> TileView {
        if position.x == 0 || position.x == size.x - 1 {
            TileView::Wire(Wire::Vert)
        } else {
            TileView::Empty
        }
    }
}

impl LadderView {
    /// The grid after the hovered cell was edited with the mouse. A left
    /// click places a boolean element: a coil in the last column, a contact
    /// elsewhere. A right click then clears a cell that holds something and
    /// puts a horizontal wire into an empty one, except in the row whose
    /// index is the grid's width less one, where an empty cell stays empty.
    /// The scroll events follow, in turn. Without a hovered cell nothing
    /// changes.
    pub open spec fn edited(self, left: bool, right: bool, scroll_events: Seq<i32>) -> LadderView {
        match self.hovered_ref {
            None => self,
            Some(hovered) => {
                let id = hovered.0.0 as int;
                let position = self.states[id].position.0;
                let width = self.tilemap.size.x;
                let after_left = if left {
                    TileView::placed(position.x == width - 1)
                } else {
                    self.tiles[id]
                };
                let after_right = if right {
                    after_left.toggled(position.y == width - 1)
                } else {
                    after_left
                };
                LadderView { tiles: self.tiles.update(id, after_right.scrolled_all(scroll_events)), ..self }
            },
        }
    }

    /// The grid after it was reset to its two power rails.
    pub open spec fn cleared(self) -> LadderView {
        LadderView {
            tiles: Seq::new(
                self.tiles.len(),
                |id: int| TileView::rail(self.states[id].position.0, self.tilemap.size),
            ),
            ..self
        }
    }
}

/// Changing the values of cells keeps the invariant.
pub proof fn lemma_tiles_changed_wf(ladder: LadderView, tiles: Seq<TileView>)
    requires
        ladder.wf(),
        tiles.len() == ladder.tiles.len(),
    ensures
        (LadderView { tiles, ..ladder }).wf(),
{
}

/// Edits the hovered cell with the mouse. `left` and `right` say which
/// buttons went down in this tick, `scroll_events` holds the wheel steps of
/// this tick in the order in which they arrived. See `LadderView::edited`.
pub fn ladder_tile_mouse_system_old(ladder: &mut Ladder, left: bool, right: bool, scroll_events: &Vec<i32>)
    requires
        old(ladder).wf(),
    ensures
        final(ladder)@ =~= old(ladder)@.edited(left, right, scroll_events@),
        final(ladder).wf(),
{
    let ghost before = ladder@;
    let id: usize = match ladder.hovered_ref {
        Some(hovered_ref) => hovered_ref.0.0,
        None => {
            return ;
        },
    };
    let tile_position = ladder.states[id].position.0;
    let width: u32 = ladder.tilemap.width();
    assert(width >= 1) by {
        assert(before.states[id as int].position.0.x < before.tilemap.tiles.len());
    }
    if left {
        let is_coil_column = tile_position.x == width - 1;
        let contact_or_coil = match is_coil_column {
            false => ContactOrCoil::Contact,
            true => ContactOrCoil::Coil,
        };
        ladder.tiles[id] = Tile::BoolElement(
            BoolElement { contact_or_coil, address: "Z09".to_owned(), polarity: Polarity::NO },
        );
    }
    let ghost after_left = ladder.tiles@[id as int]@;
    if right {
        let is_none = match &ladder.tiles[id] {
            Tile::Empty => true,
            _ => false,
        };
        let is_coil_column = tile_position.y == width - 1;
        if !is_none {
            ladder.tiles[id] = Tile::Empty;
        } else if !is_coil_column {
            ladder.tiles[id] = Tile::Wire(Wire::default());
        }
    }
    let ghost after_right = ladder.tiles@[id as int]@;
    let mut i: usize = 0;
    while i < scroll_events.len()
        invariant
            i <= scroll_events@.len(),
            id < ladder.tiles@.len(),
            ladder.tiles@.len() == before.tiles.len(),
            ladder.states@ == before.states,
            ladder.tilemap@ == before.tilemap,
            ladder.mouse_tile_position == before.mouse_tile_position,
            ladder.hovered_ref == before.hovered_ref,
            ladder.focused_ref == before.focused_ref,
            ladder.cursor == before.cursor,
            forall|other: int|
                0 <= other < before.tiles.len() && other != id ==> (#[trigger] ladder.tiles@[other])@
                    == before.tiles[other],
            ladder.tiles@[id as int]@ == after_right.scrolled_all(scroll_events@.take(i as int)),
        decreases scroll_events@.len() - i,
    {
        proof {
            let taken = scroll_events@.take(i + 1);
            assert(taken.drop_last() =~= scroll_events@.take(i as int));
            assert(taken.last() == scroll_events@[i as int]);
        }
        ladder.tiles[id].scroll(scroll_events[i]);
        i += 1;
    }
    proof {
        assert(scroll_events@.take(i as int) =~= scroll_events@);
        assert(ladder@.tiles =~= before.edited(left, right, scroll_events@).tiles);
        lemma_tiles_changed_wf(before, ladder@.tiles);
    }
}

/// The value that resetting the grid gives the cell at `position`.
pub fn rail_tile(tile: &Tile, position: UVec2, size: UVec2) -> (rail: Tile)
    requires
        position.x < size.x,
    ensures
        rail@ == TileView::rail(position, size),
{
    if position.x == 0 || position.x == size.x - 1 {
        Tile::Wire(Wire::Vert)
    } else {
        Tile::Empty
    }
}

/// Resets the grid to its two power rails when the reset key went down in
/// this tick: the first and the last column become vertical wires, every
/// other cell becomes empty.
pub fn test_clear_tilemap_system(ladder: &mut Ladder, key_just_pressed: bool)
    requires
        old(ladder).wf(),
    ensures
        final(ladder)@ =~= (if key_just_pressed {
            old(ladder)@.cleared()
        } else {
            old(ladder)@
        }),
        final(ladder).wf(),
{
    if !key_just_pressed {
        return ;
    }
    let ghost before = ladder@;
    ladder.tilemap.apply_pos_fn(rail_tile, &mut ladder.tiles);
    proof {
        assert forall|id: int| 0 <= id < before.tiles.len() implies (#[trigger] ladder.tiles@[id])@ == TileView::rail(
            before.states[id].position.0,
            before.tilemap.size,
        ) by {
            let position = before.states[id].position.0;
            let x = position.x as int;
            let y = position.y as int;
            assert(before.tilemap.tiles[x][y] == CellId(id as usize));
            assert(UVec2 { x: x as u32, y: y as u32 } == position);
        }
        assert(ladder@.tiles =~= before.cleared().tiles);
        lemma_tiles_changed_wf(before, ladder@.tiles);
    }
}

} // verus!
