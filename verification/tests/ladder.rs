use ladder_logic::edit::{ladder_tile_mouse_system_old, rail_tile, test_clear_tilemap_system};
use ladder_logic::ladder::{
    ladder_init_system, spawn_tile, FocusedRef, HoveredRef, Ladder, TileMapCursor, TileState,
};
use ladder_logic::math::{I64Vec2, IVec2, UVec2};
use ladder_logic::style::{tile_style, Color, Stroke, THICK, THIN};
use ladder_logic::systems::{
    ladder_tile_mouse_system, spawn_tile_cursor, tile_hover_system, tile_style_system,
    tilemap_cursor_removal_system, tilemap_cursor_system, tilemap_hover_removal_system,
    tilemap_mouse_position_system,
};
use ladder_logic::tile::{BoolElement, ContactOrCoil, Polarity, Tile, Wire};
use ladder_logic::tilemap::{CellId, MouseTilePosition, TilePosition};

const ORIGIN: IVec2 = IVec2 { x: -200, y: 0 };

fn filled(width: u32, height: u32) -> Ladder {
    let mut ladder = Ladder::new(UVec2::new(width, height));
    ladder_init_system(&mut ladder);
    ladder
}

/// The world point in the middle of the cell at `(x, y)` of a grid at `ORIGIN`.
fn centre(x: i32, y: i32) -> IVec2 {
    IVec2::new(ORIGIN.x + x * 64 + 32, ORIGIN.y + y * 64 + 32)
}

/// One pointer event: the passes that follow the pointer, in their order.
fn point_at(ladder: &mut Ladder, cursor: Option<IVec2>) {
    tilemap_mouse_position_system(ladder, ORIGIN, cursor);
    tilemap_cursor_system(ladder);
    tilemap_cursor_removal_system(ladder);
    tile_hover_system(ladder);
    tilemap_hover_removal_system(ladder);
}

fn cell(ladder: &Ladder, x: u32, y: u32) -> CellId {
    ladder.tilemap().get_tile(UVec2::new(x, y)).unwrap()
}

fn stroke(ladder: &Ladder, x: u32, y: u32) -> Stroke {
    ladder.state(cell(ladder, x, y)).unwrap().stroke
}

fn hovered_cells(ladder: &Ladder) -> Vec<CellId> {
    (0..ladder.len()).map(CellId).filter(|id| ladder.state(*id).unwrap().hovered).collect()
}

fn focused_cells(ladder: &Ladder) -> Vec<CellId> {
    (0..ladder.len()).map(CellId).filter(|id| ladder.state(*id).unwrap().focused).collect()
}

fn black(line_width: u32) -> Stroke {
    Stroke { color: Color::Black, line_width }
}

fn green(line_width: u32) -> Stroke {
    Stroke { color: Color::Green, line_width }
}

#[test]
fn style_table() {
    assert_eq!((THIN, THICK), (2, 4));
    assert_eq!(tile_style(false, false), black(2));
    assert_eq!(tile_style(false, true), green(2));
    assert_eq!(tile_style(true, false), black(4));
    assert_eq!(tile_style(true, true), green(4));
    assert_eq!(Stroke::new(Color::Green, 4), green(4));
}

#[test]
fn new_ladder_has_no_cells_and_no_references() {
    let ladder = Ladder::new(UVec2::new(8, 8));
    assert!(ladder.tilemap().is_empty());
    assert_eq!(ladder.tilemap().width(), 8);
    assert_eq!(ladder.tilemap().height(), 8);
    assert_eq!(ladder.len(), 0);
    assert_eq!(ladder.mouse_tile_position(), None);
    assert_eq!(ladder.hovered_ref(), None);
    assert_eq!(ladder.focused_ref(), None);
    assert_eq!(ladder.cursor(), None);
    assert_eq!(ladder.state(CellId(0)), None);
    assert!(ladder.tile(CellId(0)).is_none());
}

#[test]
fn spawn_tile_adds_a_thin_black_cell_without_flags() {
    let mut tiles = vec![Tile::Empty];
    let mut states = vec![TileState {
        position: TilePosition(UVec2::new(0, 0)),
        hovered: true,
        focused: true,
        needs_style_update: true,
        stroke: green(4),
    }];
    let id = spawn_tile(&mut tiles, &mut states, Tile::Wire(Wire::Cross), UVec2::new(3, 5));
    assert_eq!(id, CellId(1));
    assert_eq!(tiles, vec![Tile::Empty, Tile::Wire(Wire::Cross)]);
    assert_eq!(states.len(), 2);
    assert_eq!(
        states[1],
        TileState {
            position: TilePosition(UVec2::new(3, 5)),
            hovered: false,
            focused: false,
            needs_style_update: false,
            stroke: black(2),
        }
    );
    assert!(states[0].hovered);
}

#[test]
fn init_creates_one_cell_for_each_index() {
    for (w, h) in [(1u32, 1u32), (1, 7), (7, 1), (8, 8), (3, 5), (16, 2)] {
        let ladder = filled(w, h);
        assert_eq!(ladder.len(), (w * h) as usize);
        assert!(!ladder.tilemap().is_empty());
        let mut seen = vec![false; (w * h) as usize];
        for x in 0..w {
            for y in 0..h {
                let id = ladder.tilemap().get_tile(UVec2::new(x, y)).unwrap();
                assert!(!seen[id.0], "cell {:?} stands at two indices", id);
                seen[id.0] = true;
                let state = ladder.state(id).unwrap();
                assert_eq!(state.position, TilePosition(UVec2::new(x, y)));
                assert_eq!(state.stroke, black(2));
                assert!(!state.hovered && !state.focused && !state.needs_style_update);
                assert_eq!(ladder.tile(id), Some(&Tile::Empty));
            }
        }
        assert!(seen.iter().all(|s| *s));
        for id in 0..ladder.len() {
            let position = ladder.state(CellId(id)).unwrap().position.0;
            assert!(position.x < w && position.y < h);
            assert_eq!(ladder.tilemap().get_tile(position), Some(CellId(id)));
        }
        assert_eq!(ladder.state(CellId(ladder.len())), None);
    }
}

#[test]
fn init_numbers_the_cells_column_by_column() {
    let ladder = filled(3, 4);
    assert_eq!(cell(&ladder, 0, 0), CellId(0));
    assert_eq!(cell(&ladder, 0, 3), CellId(3));
    assert_eq!(cell(&ladder, 1, 0), CellId(4));
    assert_eq!(cell(&ladder, 2, 3), CellId(11));
    assert_eq!(ladder.state(CellId(6)).unwrap().position, TilePosition(UVec2::new(1, 2)));
}

#[test]
fn init_of_a_grid_without_extent_creates_nothing() {
    for (w, h) in [(0u32, 0u32), (0, 5), (5, 0)] {
        let ladder = filled(w, h);
        assert_eq!(ladder.len(), 0);
        assert_eq!(ladder.tilemap().get_tile(UVec2::new(0, 0)), None);
    }
}

#[test]
fn init_runs_once() {
    let mut ladder = filled(4, 4);
    point_at(&mut ladder, Some(centre(1, 1)));
    ladder_tile_mouse_system(&mut ladder, true, false);
    ladder_tile_mouse_system_old(&mut ladder, true, false, &vec![]);
    let hovered = ladder.hovered_ref();
    let state = ladder.state(cell(&ladder, 1, 1)).unwrap();
    let tile = ladder.tile(cell(&ladder, 1, 1)).cloned();
    ladder_init_system(&mut ladder);
    assert_eq!(ladder.len(), 16);
    assert_eq!(ladder.hovered_ref(), hovered);
    assert_eq!(ladder.state(cell(&ladder, 1, 1)).unwrap(), state);
    assert_eq!(ladder.tile(cell(&ladder, 1, 1)).cloned(), tile);
    assert!(state.hovered && state.focused);
}

#[test]
fn mouse_position_is_recorded_on_the_grid_and_dropped_off_it() {
    let mut ladder = filled(8, 8);
    tilemap_mouse_position_system(&mut ladder, ORIGIN, Some(IVec2::new(-201, 5)));
    assert_eq!(ladder.mouse_tile_position(), None);
    tilemap_mouse_position_system(&mut ladder, ORIGIN, Some(IVec2::new(-200 + 3 * 64, 2 * 64 + 63)));
    assert_eq!(ladder.mouse_tile_position(), Some(MouseTilePosition(UVec2::new(3, 2))));
    tilemap_mouse_position_system(&mut ladder, ORIGIN, Some(centre(7, 7)));
    assert_eq!(ladder.mouse_tile_position(), Some(MouseTilePosition(UVec2::new(7, 7))));
    tilemap_mouse_position_system(&mut ladder, ORIGIN, None);
    assert_eq!(ladder.mouse_tile_position(), Some(MouseTilePosition(UVec2::new(7, 7))));
    tilemap_mouse_position_system(&mut ladder, ORIGIN, Some(centre(8, 7)));
    assert_eq!(ladder.mouse_tile_position(), None);
    tilemap_mouse_position_system(&mut ladder, ORIGIN, None);
    assert_eq!(ladder.mouse_tile_position(), None);
}

#[test]
fn cursor_overlay_follows_the_pointer_and_leaves_with_it() {
    let mut ladder = filled(8, 8);
    tilemap_cursor_system(&mut ladder);
    assert_eq!(ladder.cursor(), None);
    tilemap_mouse_position_system(&mut ladder, ORIGIN, Some(centre(2, 5)));
    tilemap_cursor_removal_system(&mut ladder);
    assert_eq!(ladder.cursor(), None);
    tilemap_cursor_system(&mut ladder);
    assert_eq!(ladder.cursor(), Some(TileMapCursor { position: TilePosition(UVec2::new(2, 5)) }));
    assert_eq!(ladder.cursor().unwrap().pixel_offset(), I64Vec2::new(128, 320));
    tilemap_mouse_position_system(&mut ladder, ORIGIN, Some(centre(3, 5)));
    tilemap_cursor_system(&mut ladder);
    assert_eq!(ladder.cursor(), Some(spawn_tile_cursor(UVec2::new(3, 5))));
    tilemap_cursor_removal_system(&mut ladder);
    assert_eq!(ladder.cursor(), Some(spawn_tile_cursor(UVec2::new(3, 5))));
    tilemap_mouse_position_system(&mut ladder, ORIGIN, Some(centre(-1, 5)));
    tilemap_cursor_system(&mut ladder);
    assert_eq!(ladder.cursor(), Some(spawn_tile_cursor(UVec2::new(3, 5))));
    tilemap_cursor_removal_system(&mut ladder);
    assert_eq!(ladder.cursor(), None);
    assert_eq!(
        spawn_tile_cursor(UVec2::new(u32::MAX, 0)).pixel_offset(),
        I64Vec2::new(274877906880, 0)
    );
}

#[test]
fn hover_follows_the_pointer() {
    let mut ladder = filled(8, 8);
    point_at(&mut ladder, Some(centre(0, 0)));
    assert_eq!(ladder.hovered_ref(), Some(HoveredRef(cell(&ladder, 0, 0))));
    assert_eq!(hovered_cells(&ladder), vec![cell(&ladder, 0, 0)]);
    assert!(ladder.state(cell(&ladder, 0, 0)).unwrap().needs_style_update);

    point_at(&mut ladder, Some(centre(5, 6)));
    assert_eq!(ladder.hovered_ref(), Some(HoveredRef(cell(&ladder, 5, 6))));
    assert_eq!(hovered_cells(&ladder), vec![cell(&ladder, 5, 6)]);
    assert!(ladder.state(cell(&ladder, 0, 0)).unwrap().needs_style_update);
    assert!(ladder.state(cell(&ladder, 5, 6)).unwrap().needs_style_update);
    assert!(!ladder.state(cell(&ladder, 1, 1)).unwrap().needs_style_update);
}

#[test]
fn hover_on_the_same_cell_changes_nothing() {
    let mut ladder = filled(8, 8);
    point_at(&mut ladder, Some(centre(2, 2)));
    assert_eq!(tile_style_system(&mut ladder), vec![cell(&ladder, 2, 2)]);
    point_at(&mut ladder, Some(IVec2::new(ORIGIN.x + 2 * 64, 2 * 64)));
    assert_eq!(ladder.hovered_ref(), Some(HoveredRef(cell(&ladder, 2, 2))));
    assert!(!ladder.state(cell(&ladder, 2, 2)).unwrap().needs_style_update);
    assert_eq!(tile_style_system(&mut ladder), vec![]);
}

#[test]
fn hover_is_dropped_when_the_pointer_leaves() {
    let mut ladder = filled(8, 8);
    point_at(&mut ladder, Some(centre(4, 4)));
    tile_style_system(&mut ladder);
    assert_eq!(stroke(&ladder, 4, 4), black(4));
    point_at(&mut ladder, Some(centre(8, 4)));
    assert_eq!(ladder.hovered_ref(), None);
    assert_eq!(hovered_cells(&ladder), vec![]);
    assert!(ladder.state(cell(&ladder, 4, 4)).unwrap().needs_style_update);
    assert_eq!(stroke(&ladder, 4, 4), black(4));
    assert_eq!(tile_style_system(&mut ladder), vec![cell(&ladder, 4, 4)]);
    assert_eq!(stroke(&ladder, 4, 4), black(2));
}

#[test]
fn hover_stays_while_the_pointer_has_no_position() {
    let mut ladder = filled(8, 8);
    point_at(&mut ladder, Some(centre(4, 4)));
    point_at(&mut ladder, None);
    assert_eq!(ladder.hovered_ref(), Some(HoveredRef(cell(&ladder, 4, 4))));
    assert_eq!(ladder.cursor(), Some(spawn_tile_cursor(UVec2::new(4, 4))));
}

#[test]
fn at_most_one_cell_is_hovered_after_any_pointer_moves() {
    let mut ladder = filled(8, 8);
    let mut seed: u32 = 12345;
    for _ in 0..500 {
        seed = seed.wrapping_mul(1664525).wrapping_add(1013904223);
        let x = ORIGIN.x - 100 + ((seed >> 8) % 712) as i32;
        seed = seed.wrapping_mul(1664525).wrapping_add(1013904223);
        let y = ORIGIN.y - 100 + ((seed >> 8) % 712) as i32;
        let cursor = if seed % 7 == 0 { None } else { Some(IVec2::new(x, y)) };
        point_at(&mut ladder, cursor);
        let hovered = hovered_cells(&ladder);
        assert!(hovered.len() <= 1);
        assert_eq!(hovered.first().copied().map(HoveredRef), ladder.hovered_ref());
        match ladder.mouse_tile_position() {
            Some(mouse) => {
                assert_eq!(ladder.hovered_ref(), Some(HoveredRef(ladder.tilemap().get_tile(mouse.0).unwrap())))
            }
            None => assert_eq!(ladder.hovered_ref(), None),
        }
    }
}

#[test]
fn hover_and_focus_scenario_on_an_eight_by_eight_grid() {
    let mut ladder = filled(8, 8);

    point_at(&mut ladder, Some(centre(0, 0)));
    tile_style_system(&mut ladder);
    assert_eq!(ladder.hovered_ref(), Some(HoveredRef(cell(&ladder, 0, 0))));
    assert_eq!(stroke(&ladder, 0, 0), black(4));

    ladder_tile_mouse_system(&mut ladder, true, false);
    tile_style_system(&mut ladder);
    assert_eq!(ladder.focused_ref(), Some(FocusedRef(cell(&ladder, 0, 0))));
    assert_eq!(stroke(&ladder, 0, 0), green(4));

    point_at(&mut ladder, Some(centre(1, 0)));
    tile_style_system(&mut ladder);
    assert!(!ladder.state(cell(&ladder, 0, 0)).unwrap().hovered);
    assert_eq!(stroke(&ladder, 0, 0), green(2));
    assert!(ladder.state(cell(&ladder, 1, 0)).unwrap().hovered);
    assert_eq!(ladder.hovered_ref(), Some(HoveredRef(cell(&ladder, 1, 0))));
    assert_eq!(stroke(&ladder, 1, 0), black(4));

    ladder_tile_mouse_system(&mut ladder, true, false);
    tile_style_system(&mut ladder);
    assert!(!ladder.state(cell(&ladder, 0, 0)).unwrap().focused);
    assert_eq!(stroke(&ladder, 0, 0), black(2));
    assert!(ladder.state(cell(&ladder, 1, 0)).unwrap().focused);
    assert_eq!(ladder.focused_ref(), Some(FocusedRef(cell(&ladder, 1, 0))));
    assert_eq!(stroke(&ladder, 1, 0), green(4));

    assert_eq!(hovered_cells(&ladder), vec![cell(&ladder, 1, 0)]);
    assert_eq!(focused_cells(&ladder), vec![cell(&ladder, 1, 0)]);
}

#[test]
fn clicks_without_a_hovered_cell_do_nothing() {
    let mut ladder = filled(8, 8);
    ladder_tile_mouse_system(&mut ladder, true, true);
    assert_eq!(ladder.focused_ref(), None);
    assert_eq!(focused_cells(&ladder), vec![]);
    assert_eq!(tile_style_system(&mut ladder), vec![]);
}

#[test]
fn no_click_changes_nothing() {
    let mut ladder = filled(8, 8);
    point_at(&mut ladder, Some(centre(2, 3)));
    ladder_tile_mouse_system(&mut ladder, true, false);
    tile_style_system(&mut ladder);
    ladder_tile_mouse_system(&mut ladder, false, false);
    assert_eq!(ladder.focused_ref(), Some(FocusedRef(cell(&ladder, 2, 3))));
    assert_eq!(tile_style_system(&mut ladder), vec![]);
}

#[test]
fn right_click_clears_the_focus_flag_and_keeps_the_reference() {
    let mut ladder = filled(8, 8);
    point_at(&mut ladder, Some(centre(2, 3)));
    ladder_tile_mouse_system(&mut ladder, true, false);
    point_at(&mut ladder, Some(centre(6, 6)));
    tile_style_system(&mut ladder);
    assert_eq!(stroke(&ladder, 2, 3), green(2));

    ladder_tile_mouse_system(&mut ladder, false, true);
    assert_eq!(focused_cells(&ladder), vec![]);
    assert_eq!(ladder.focused_ref(), Some(FocusedRef(cell(&ladder, 2, 3))));
    assert_eq!(tile_style_system(&mut ladder), vec![cell(&ladder, 2, 3)]);
    assert_eq!(stroke(&ladder, 2, 3), black(2));

    // A second right click finds no flag to clear.
    ladder_tile_mouse_system(&mut ladder, false, true);
    assert_eq!(tile_style_system(&mut ladder), vec![]);

    // The focus comes back with a left click.
    ladder_tile_mouse_system(&mut ladder, true, false);
    assert_eq!(focused_cells(&ladder), vec![cell(&ladder, 6, 6)]);
    assert_eq!(ladder.focused_ref(), Some(FocusedRef(cell(&ladder, 6, 6))));
    assert_eq!(tile_style_system(&mut ladder), vec![cell(&ladder, 6, 6)]);
    assert_eq!(stroke(&ladder, 6, 6), green(4));
}

#[test]
fn left_click_on_the_focused_cell_keeps_it_focused() {
    let mut ladder = filled(8, 8);
    point_at(&mut ladder, Some(centre(2, 3)));
    ladder_tile_mouse_system(&mut ladder, true, false);
    tile_style_system(&mut ladder);
    ladder_tile_mouse_system(&mut ladder, true, false);
    assert_eq!(focused_cells(&ladder), vec![cell(&ladder, 2, 3)]);
    assert!(ladder.state(cell(&ladder, 2, 3)).unwrap().needs_style_update);
    tile_style_system(&mut ladder);
    assert_eq!(stroke(&ladder, 2, 3), green(4));
}

#[test]
fn both_buttons_in_one_tick() {
    // With the focus elsewhere, the hovered cell ends up focused.
    let mut ladder = filled(8, 8);
    point_at(&mut ladder, Some(centre(1, 1)));
    ladder_tile_mouse_system(&mut ladder, true, false);
    point_at(&mut ladder, Some(centre(2, 2)));
    ladder_tile_mouse_system(&mut ladder, true, true);
    assert_eq!(focused_cells(&ladder), vec![cell(&ladder, 2, 2)]);
    assert_eq!(ladder.focused_ref(), Some(FocusedRef(cell(&ladder, 2, 2))));

    // With the focus on the hovered cell, the right click takes it away.
    ladder_tile_mouse_system(&mut ladder, true, true);
    assert_eq!(focused_cells(&ladder), vec![]);
    assert_eq!(ladder.focused_ref(), Some(FocusedRef(cell(&ladder, 2, 2))));
}

#[test]
fn at_most_one_cell_is_focused_after_any_clicks() {
    let mut ladder = filled(6, 6);
    let mut seed: u32 = 99;
    for _ in 0..500 {
        seed = seed.wrapping_mul(1664525).wrapping_add(1013904223);
        let x = ((seed >> 8) % 8) as i32 - 1;
        seed = seed.wrapping_mul(1664525).wrapping_add(1013904223);
        let y = ((seed >> 8) % 8) as i32 - 1;
        point_at(&mut ladder, Some(centre(x, y)));
        seed = seed.wrapping_mul(1664525).wrapping_add(1013904223);
        ladder_tile_mouse_system(&mut ladder, (seed >> 8) % 3 == 0, (seed >> 12) % 5 == 0);
        let focused = focused_cells(&ladder);
        assert!(focused.len() <= 1);
        if let Some(id) = focused.first() {
            assert_eq!(ladder.focused_ref(), Some(FocusedRef(*id)));
        }
        assert!(hovered_cells(&ladder).len() <= 1);
        tile_style_system(&mut ladder);
        for id in 0..ladder.len() {
            let state = ladder.state(CellId(id)).unwrap();
            assert!(!state.needs_style_update);
            assert_eq!(state.stroke, tile_style(state.hovered, state.focused));
        }
    }
}

#[test]
fn style_system_returns_the_refreshed_cells_in_increasing_order() {
    let mut ladder = filled(4, 4);
    point_at(&mut ladder, Some(centre(3, 3)));
    ladder_tile_mouse_system(&mut ladder, true, false);
    point_at(&mut ladder, Some(centre(0, 1)));
    point_at(&mut ladder, Some(centre(2, 0)));
    assert_eq!(tile_style_system(&mut ladder), vec![CellId(1), CellId(8), CellId(15)]);
    assert_eq!(stroke(&ladder, 0, 1), black(2));
    assert_eq!(stroke(&ladder, 2, 0), black(4));
    assert_eq!(stroke(&ladder, 3, 3), green(2));
    assert_eq!(tile_style_system(&mut ladder), vec![]);
}

fn tile_at(ladder: &Ladder, x: u32, y: u32) -> Tile {
    ladder.tile(cell(ladder, x, y)).unwrap().clone()
}

fn z09(contact_or_coil: ContactOrCoil, polarity: Polarity) -> Tile {
    Tile::BoolElement(BoolElement { contact_or_coil, address: "Z09".to_string(), polarity })
}

#[test]
fn left_click_places_a_contact_or_a_coil() {
    let mut ladder = filled(8, 8);
    point_at(&mut ladder, Some(centre(3, 2)));
    ladder_tile_mouse_system_old(&mut ladder, true, false, &vec![]);
    assert_eq!(tile_at(&ladder, 3, 2), z09(ContactOrCoil::Contact, Polarity::NO));
    assert_eq!(tile_at(&ladder, 3, 2).label_string(), "Z09");

    point_at(&mut ladder, Some(centre(7, 2)));
    ladder_tile_mouse_system_old(&mut ladder, true, false, &vec![]);
    assert_eq!(tile_at(&ladder, 7, 2), z09(ContactOrCoil::Coil, Polarity::NO));

    point_at(&mut ladder, Some(centre(2, 7)));
    ladder_tile_mouse_system_old(&mut ladder, true, false, &vec![]);
    assert_eq!(tile_at(&ladder, 2, 7), z09(ContactOrCoil::Contact, Polarity::NO));
    assert_eq!(tile_at(&ladder, 0, 0), Tile::Empty);
}

#[test]
fn right_click_toggles_between_wire_and_empty() {
    let mut ladder = filled(8, 8);
    point_at(&mut ladder, Some(centre(3, 2)));
    ladder_tile_mouse_system_old(&mut ladder, false, true, &vec![]);
    assert_eq!(tile_at(&ladder, 3, 2), Tile::Wire(Wire::Horz));
    ladder_tile_mouse_system_old(&mut ladder, false, true, &vec![]);
    assert_eq!(tile_at(&ladder, 3, 2), Tile::Empty);

    ladder_tile_mouse_system_old(&mut ladder, true, false, &vec![]);
    ladder_tile_mouse_system_old(&mut ladder, false, true, &vec![]);
    assert_eq!(tile_at(&ladder, 3, 2), Tile::Empty);

    // Left and right in one tick: the element is placed and removed again.
    ladder_tile_mouse_system_old(&mut ladder, true, true, &vec![]);
    assert_eq!(tile_at(&ladder, 3, 2), Tile::Empty);
}

#[test]
fn right_click_leaves_an_empty_cell_of_row_width_less_one_empty() {
    let mut ladder = filled(8, 8);
    point_at(&mut ladder, Some(centre(3, 7)));
    ladder_tile_mouse_system_old(&mut ladder, false, true, &vec![]);
    assert_eq!(tile_at(&ladder, 3, 7), Tile::Empty);
    ladder_tile_mouse_system_old(&mut ladder, true, false, &vec![]);
    ladder_tile_mouse_system_old(&mut ladder, false, true, &vec![]);
    assert_eq!(tile_at(&ladder, 3, 7), Tile::Empty);

    // The row is counted by the width: in a 4 by 8 grid it is row 3.
    let mut narrow = filled(4, 8);
    point_at(&mut narrow, Some(centre(1, 3)));
    ladder_tile_mouse_system_old(&mut narrow, false, true, &vec![]);
    assert_eq!(tile_at(&narrow, 1, 3), Tile::Empty);
    point_at(&mut narrow, Some(centre(1, 7)));
    ladder_tile_mouse_system_old(&mut narrow, false, true, &vec![]);
    assert_eq!(tile_at(&narrow, 1, 7), Tile::Wire(Wire::Horz));
    point_at(&mut narrow, Some(centre(3, 0)));
    ladder_tile_mouse_system_old(&mut narrow, true, false, &vec![]);
    assert_eq!(tile_at(&narrow, 3, 0), z09(ContactOrCoil::Coil, Polarity::NO));
}

#[test]
fn scroll_events_apply_in_turn() {
    let mut ladder = filled(8, 8);
    point_at(&mut ladder, Some(centre(3, 2)));
    ladder_tile_mouse_system_old(&mut ladder, false, false, &vec![1, 2, -5]);
    assert_eq!(tile_at(&ladder, 3, 2), Tile::Empty);

    ladder_tile_mouse_system_old(&mut ladder, false, true, &vec![1, 2, -5]);
    assert_eq!(tile_at(&ladder, 3, 2), Tile::Wire(Wire::T270));
    ladder_tile_mouse_system_old(&mut ladder, false, false, &vec![3]);
    assert_eq!(tile_at(&ladder, 3, 2), Tile::Wire(Wire::Vert));

    ladder_tile_mouse_system_old(&mut ladder, true, false, &vec![7]);
    assert_eq!(tile_at(&ladder, 3, 2), z09(ContactOrCoil::Contact, Polarity::NC));
    ladder_tile_mouse_system_old(&mut ladder, false, false, &vec![0, 0]);
    assert_eq!(tile_at(&ladder, 3, 2), z09(ContactOrCoil::Contact, Polarity::NC));
    ladder_tile_mouse_system_old(&mut ladder, false, false, &vec![-1, 4, 9]);
    assert_eq!(tile_at(&ladder, 3, 2), z09(ContactOrCoil::Contact, Polarity::NO));
}

#[test]
fn editing_without_a_hovered_cell_does_nothing() {
    let mut ladder = filled(3, 3);
    ladder_tile_mouse_system_old(&mut ladder, true, true, &vec![1]);
    for id in 0..9 {
        assert_eq!(ladder.tile(CellId(id)), Some(&Tile::Empty));
    }
}

#[test]
fn editing_leaves_flags_and_other_cells_alone() {
    let mut ladder = filled(3, 3);
    point_at(&mut ladder, Some(centre(1, 1)));
    ladder_tile_mouse_system(&mut ladder, true, false);
    tile_style_system(&mut ladder);
    let states: Vec<TileState> = (0..9).map(|id| ladder.state(CellId(id)).unwrap()).collect();
    ladder_tile_mouse_system_old(&mut ladder, true, false, &vec![1]);
    for id in 0..9 {
        assert_eq!(ladder.state(CellId(id)).unwrap(), states[id]);
        if CellId(id) != cell(&ladder, 1, 1) {
            assert_eq!(ladder.tile(CellId(id)), Some(&Tile::Empty));
        }
    }
    assert_eq!(ladder.hovered_ref(), Some(HoveredRef(cell(&ladder, 1, 1))));
    assert_eq!(ladder.focused_ref(), Some(FocusedRef(cell(&ladder, 1, 1))));
}

#[test]
fn rail_tile_by_column() {
    let size = UVec2::new(8, 8);
    assert_eq!(rail_tile(&Tile::Empty, UVec2::new(0, 3), size), Tile::Wire(Wire::Vert));
    assert_eq!(rail_tile(&Tile::Empty, UVec2::new(7, 0), size), Tile::Wire(Wire::Vert));
    assert_eq!(rail_tile(&Tile::Wire(Wire::Cross), UVec2::new(1, 3), size), Tile::Empty);
    assert_eq!(rail_tile(&Tile::Wire(Wire::Cross), UVec2::new(6, 7), size), Tile::Empty);
    assert_eq!(rail_tile(&Tile::Empty, UVec2::new(0, 0), UVec2::new(1, 1)), Tile::Wire(Wire::Vert));
}

#[test]
fn clearing_resets_the_grid_to_its_rails() {
    let mut ladder = filled(5, 4);
    point_at(&mut ladder, Some(centre(2, 2)));
    ladder_tile_mouse_system_old(&mut ladder, true, false, &vec![]);
    point_at(&mut ladder, Some(centre(0, 1)));
    ladder_tile_mouse_system_old(&mut ladder, true, false, &vec![]);

    test_clear_tilemap_system(&mut ladder, false);
    assert_eq!(tile_at(&ladder, 2, 2), z09(ContactOrCoil::Contact, Polarity::NO));
    assert_eq!(tile_at(&ladder, 0, 0), Tile::Empty);

    test_clear_tilemap_system(&mut ladder, true);
    for x in 0..5 {
        for y in 0..4 {
            let expected = if x == 0 || x == 4 { Tile::Wire(Wire::Vert) } else { Tile::Empty };
            assert_eq!(tile_at(&ladder, x, y), expected);
        }
    }
    assert_eq!(ladder.hovered_ref(), Some(HoveredRef(cell(&ladder, 0, 1))));

    let mut single = filled(1, 2);
    test_clear_tilemap_system(&mut single, true);
    assert_eq!(tile_at(&single, 0, 0), Tile::Wire(Wire::Vert));
    assert_eq!(tile_at(&single, 0, 1), Tile::Wire(Wire::Vert));
}
