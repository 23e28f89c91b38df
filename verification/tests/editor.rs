use citrus_field::field::Field;
use citrus_field::input::{MouseButtons, MouseModifiers};
use citrus_field::panel::{Panel, PanelKind};
use citrus_field::transform::{FP_ONE, INITIAL_ZOOM, MAX_ZOOM, MIN_ZOOM};
use citrus_field::view::{EditorView, DEFAULT_PANEL};

fn px(v: i64) -> i64 {
    v * FP_ONE
}

#[test]
fn default_view_is_empty_identity() {
    let ev = EditorView::default();
    assert_eq!(ev.field.width(), 0);
    assert_eq!(ev.field.height(), 0);
    assert_eq!(ev.view.sx, FP_ONE);
    assert_eq!(ev.view.sy, FP_ONE);
    assert_eq!(ev.view.tx, 0);
    assert_eq!(ev.view.ty, 0);
    assert_eq!(ev.selected, DEFAULT_PANEL);
}

#[test]
fn example_layout() {
    let ev = EditorView::new_example();
    assert_eq!(ev.field.width(), 6);
    assert_eq!(ev.field.height(), 6);
    assert_eq!(ev.view.sx, INITIAL_ZOOM);
    assert_eq!(ev.view.sy, INITIAL_ZOOM);
    assert_eq!(ev.selected, PanelKind::Neutral);
    // the ring of typed panels:
    assert_eq!(ev.field.get(0, 0).kind, PanelKind::Home);
    assert_eq!(ev.field.get(1, 0).kind, PanelKind::Bonus);
    assert_eq!(ev.field.get(2, 0).kind, PanelKind::Draw);
    assert_eq!(ev.field.get(3, 0).kind, PanelKind::Encounter);
    assert_eq!(ev.field.get(4, 0).kind, PanelKind::Drop);
    assert_eq!(ev.field.get(5, 0).kind, PanelKind::Home);
    assert_eq!(ev.field.get(0, 2).kind, PanelKind::Encounter);
    assert_eq!(ev.field.get(5, 4).kind, PanelKind::Drop);
    assert_eq!(ev.field.get(1, 5).kind, PanelKind::Drop);
    // and the empty interior:
    for y in 1..5 {
        for x in 1..5 {
            assert_eq!(ev.field.get(x, y).kind, PanelKind::Empty);
        }
    }
}

#[test]
fn pan_translates_only() {
    let mut ev = EditorView::new_example();
    ev.pan((px(50), px(-20)));
    assert_eq!(ev.view.sx, INITIAL_ZOOM);
    assert_eq!(ev.view.sy, INITIAL_ZOOM);
    assert_eq!(ev.view.tx, px(50));
    assert_eq!(ev.view.ty, px(-20));
    assert_eq!(ev.field.width(), 6);
}

#[test]
fn scale_preserves_anchor() {
    let mut ev = EditorView::new_example();
    ev.pan((px(13), px(7)));
    let anchor = (px(300), px(200));
    let before = ev.screen_to_grid(anchor);
    ev.scale(2 * FP_ONE, anchor);
    let after = ev.screen_to_grid(anchor);
    assert_eq!(before, after);
    assert_eq!(ev.get_scale(), (2 * INITIAL_ZOOM, 2 * INITIAL_ZOOM));
}

#[test]
fn get_scale_reads_transform() {
    let ev = EditorView::new_example();
    assert_eq!(ev.get_scale(), (INITIAL_ZOOM, INITIAL_ZOOM));
}

#[test]
fn screen_to_grid_floors() {
    let ev = EditorView::new_example();
    // one grid unit is INITIAL_ZOOM pixels; half a cell in is still cell 0
    assert_eq!(ev.screen_to_grid((px(64), px(64))), (0, 0));
    assert_eq!(ev.screen_to_grid((px(128), px(0))), (1, 0));
    assert_eq!(ev.screen_to_grid((px(-1), px(0))), (-1, 0));
    assert_eq!(ev.screen_to_grid((px(-192), px(448))), (-2, 3));
}

#[test]
fn resize_round_trip_recovers_cells() {
    let ev = EditorView::new_example();
    let f0 = &ev.field;
    let f1 = f0.resize_to((8, 7), (1, 2));
    let f2 = f1.resize_to((6, 6), (-1, -2));
    assert_eq!(f2.width(), 6);
    assert_eq!(f2.height(), 6);
    for y in 0..6 {
        for x in 0..6 {
            // every cell of the original that also survived in the
            // intermediate board comes back unchanged; with this growth,
            // that is every cell but the ones shifted past the right edge
            if x + 1 < 8 && y + 2 < 7 {
                assert_eq!(f2.get(x, y).kind, f0.get(x, y).kind);
            }
        }
    }
}

#[test]
fn resize_shifts_and_fills_empty() {
    let ev = EditorView::new_example();
    let f1 = ev.field.resize_to((8, 7), (1, 2));
    assert_eq!(f1.width(), 8);
    assert_eq!(f1.height(), 7);
    // shifted copy:
    assert_eq!(f1.get(1, 2).kind, PanelKind::Home);
    assert_eq!(f1.get(2, 2).kind, PanelKind::Bonus);
    // newly exposed positions hold the empty panel:
    assert_eq!(f1.get(0, 0).kind, PanelKind::Empty);
    assert_eq!(f1.get(7, 6).kind, PanelKind::Empty);
}

#[test]
fn resize_pairing_keeps_cells_stationary_on_screen() {
    let mut ev = EditorView::new_example();
    ev.pan((px(33), px(-5)));
    let before = ev.clone();
    ev.resize_field((8, 7), (1, 2));
    for y in 0..6i64 {
        for x in 0..6i64 {
            assert_eq!(
                ev.view.apply(x + 1, y + 2),
                before.view.apply(x, y),
                "surviving cell moved on screen"
            );
        }
    }
}

#[test]
fn flex_in_bounds_leaves_board_alone() {
    let mut ev = EditorView::new_example();
    let (x, y) = ev.flex((px(192), px(64)));
    assert_eq!((x, y), (1, 0));
    assert_eq!(ev.field.width(), 6);
    assert_eq!(ev.field.height(), 6);
    assert_eq!(ev.view.tx, 0);
}

#[test]
fn flex_grows_minimally_and_is_idempotent() {
    let mut ev = EditorView::new_example();
    let pos = (px(-192), px(448));
    assert_eq!(ev.screen_to_grid(pos), (-2, 3));
    assert!(ev.flex_fits(pos));
    let (x, y) = ev.flex(pos);
    assert_eq!((x, y), (0, 3));
    // exactly two columns were added, nothing more:
    assert_eq!(ev.field.width(), 8);
    assert_eq!(ev.field.height(), 6);
    // the transform was pre-translated by the offset:
    assert_eq!(ev.view.tx, -px(2 * 128));
    assert_eq!(ev.view.ty, 0);
    // a second flex at the same position is now in bounds and resizes
    // nothing:
    let (x2, y2) = ev.flex(pos);
    assert_eq!((x2, y2), (0, 3));
    assert_eq!(ev.field.width(), 8);
    assert_eq!(ev.view.tx, -px(2 * 128));
}

#[test]
fn flex_mut_writes_through() {
    let mut ev = EditorView::new_example();
    let pos = (px(-192), px(448));
    *ev.flex_mut(pos) = Panel::new(PanelKind::Ice);
    assert_eq!(ev.field.width(), 8);
    assert_eq!(ev.field.get(0, 3).kind, PanelKind::Ice);
}

#[test]
fn collapse_removes_empty_borders() {
    let e = Panel::empty();
    let warp = Panel::new(PanelKind::Warp);
    let rows = vec![
        vec![e, e, e, e],
        vec![e, e, e, e],
        vec![e, warp, e, e],
        vec![e, e, e, e],
    ];
    let mut ev = EditorView::default();
    *ev.field_mut() = Field::new_slice(&rows);
    assert!(ev.collapse_fits());
    ev.collapse();
    assert_eq!(ev.field.width(), 1);
    assert_eq!(ev.field.height(), 1);
    assert_eq!(ev.field.get(0, 0).kind, PanelKind::Warp);
    // the paired adjustment: one column and two rows were cut on the
    // leading side
    assert_eq!(ev.view.tx, FP_ONE);
    assert_eq!(ev.view.ty, 2 * FP_ONE);
}

#[test]
fn collapse_of_empty_board_degenerates() {
    let mut ev = EditorView::default();
    *ev.field_mut() = Field::new_filled(3, 2, Panel::empty());
    ev.collapse();
    assert_eq!(ev.field.width(), 0);
    assert_eq!(ev.field.height(), 0);
    assert_eq!(ev.view.tx, 0);
    assert_eq!(ev.view.ty, 0);
}

#[test]
fn collapse_of_minimal_board_keeps_content() {
    let mut ev = EditorView::new_example();
    ev.collapse();
    assert_eq!(ev.field.width(), 6);
    assert_eq!(ev.field.height(), 6);
    assert_eq!(ev.field.get(0, 0).kind, PanelKind::Home);
    assert_eq!(ev.field.get(5, 5).kind, PanelKind::Home);
    assert_eq!(ev.view.tx, 0);
    assert_eq!(ev.view.ty, 0);
}

#[test]
fn wheel_zoom_clamps_at_both_bounds() {
    let mut ev = EditorView::new_example();
    // zoom in: 128 -> 256 is allowed, the next doubling is refused
    assert!(ev.wheel_zoom(2 * FP_ONE, (0, 0)));
    assert_eq!(ev.get_scale(), (MAX_ZOOM, MAX_ZOOM));
    assert!(!ev.wheel_zoom(2 * FP_ONE, (0, 0)));
    assert_eq!(ev.get_scale(), (MAX_ZOOM, MAX_ZOOM));
    // zoom out: 256 -> 128 -> 64 -> 32, then refused at the floor
    assert!(ev.wheel_zoom(FP_ONE / 2, (0, 0)));
    assert!(ev.wheel_zoom(FP_ONE / 2, (0, 0)));
    assert!(ev.wheel_zoom(FP_ONE / 2, (0, 0)));
    assert_eq!(ev.get_scale(), (MIN_ZOOM, MIN_ZOOM));
    assert!(!ev.wheel_zoom(FP_ONE / 2, (0, 0)));
    assert_eq!(ev.get_scale(), (MIN_ZOOM, MIN_ZOOM));
    // a degenerate factor is always refused
    assert!(!ev.wheel_zoom(0, (0, 0)));
    assert!(!ev.wheel_zoom(-FP_ONE, (0, 0)));
}

#[test]
fn mouse_move_pans_with_right_button() {
    let mut ev = EditorView::new_example();
    ev.apply_mouse_move(MouseButtons(2), (px(110), px(90)), (px(100), px(100)));
    assert_eq!(ev.view.tx, px(10));
    assert_eq!(ev.view.ty, px(-10));
    // without the secondary button nothing moves
    ev.apply_mouse_move(MouseButtons(1), (px(500), px(500)), (px(0), px(0)));
    assert_eq!(ev.view.tx, px(10));
    assert_eq!(ev.view.ty, px(-10));
}

#[test]
fn placement_scenario_grows_and_stays_visible() {
    // start with the 6x6 board, pan by (50, 0) screen pixels, then place a
    // cell at a screen position that maps to grid (-2, 3)
    let mut ev = EditorView::new_example();
    ev.pan((px(50), 0));
    let before = ev.clone();
    let pos = (px(50 - 256 + 64), px(448));
    assert_eq!(ev.screen_to_grid(pos), (-2, 3));

    ev.apply_mouse_up(MouseButtons(1), MouseModifiers(0), pos);

    // the board grew by exactly two columns
    assert_eq!(ev.field.width(), 8);
    assert_eq!(ev.field.height(), 6);
    // the transform was pre-translated by (2, 0) grid units
    assert_eq!(ev.view.tx, px(50) - 2 * INITIAL_ZOOM);
    assert_eq!(ev.view.ty, 0);
    // the new cell holds the selected kind at its requested position
    assert_eq!(ev.field.get(0, 3).kind, PanelKind::Neutral);
    // and renders at the same screen position the request addressed
    assert_eq!(ev.view.apply(0, 3), before.view.apply(-2, 3));
    // the old cells render where they used to
    assert_eq!(ev.view.apply(2, 0), before.view.apply(0, 0));
}

#[test]
fn shift_click_deletes_and_collapses() {
    let mut ev = EditorView::new_example();
    // delete the whole top row one cell at a time; the last deletion in a
    // row triggers a collapse that removes the now-empty border row
    for x in 0..6 {
        let pos = (x * INITIAL_ZOOM + px(64), px(64));
        ev.apply_mouse_up(MouseButtons(1), MouseModifiers(1), pos);
    }
    assert_eq!(ev.field.width(), 6);
    assert_eq!(ev.field.height(), 5);
    // the top row is gone; what was row 1 is now row 0
    assert_eq!(ev.field.get(0, 0).kind, PanelKind::Drop);
    assert_eq!(ev.view.ty, INITIAL_ZOOM);
}

#[test]
fn non_left_click_changes_nothing() {
    let mut ev = EditorView::new_example();
    let before = ev.clone();
    ev.apply_mouse_up(MouseButtons(2), MouseModifiers(0), (px(64), px(64)));
    assert_eq!(ev.field.width(), before.field.width());
    assert_eq!(ev.view.tx, before.view.tx);
    assert_eq!(ev.field.get(0, 0).kind, before.field.get(0, 0).kind);
}

#[test]
fn center_fits_and_centers() {
    let mut ev = EditorView::new_example();
    ev.center((px(1000), px(800)));
    // room is (936, 736) pixels over a 6x6 board; the y axis binds
    let expected_scale = (736 * FP_ONE) / 6;
    assert_eq!(ev.view.sx, expected_scale);
    assert_eq!(ev.view.sy, expected_scale);
    assert_eq!(ev.view.tx, (px(1000) - 6 * expected_scale) / 2);
    assert_eq!(ev.view.ty, (px(800) - 6 * expected_scale) / 2);
}

#[test]
fn center_clamps_scale() {
    let mut ev = EditorView::new_example();
    // a huge box would ask for more than the zoom ceiling
    ev.center((px(100000), px(100000)));
    assert_eq!(ev.view.sx, MAX_ZOOM);
    // a tiny box would ask for less than the floor
    ev.center((px(70), px(70)));
    assert_eq!(ev.view.sx, MIN_ZOOM);
}

#[test]
fn center_is_noop_on_degenerate_board() {
    let mut ev = EditorView::default();
    ev.center((px(1000), px(800)));
    assert_eq!(ev.view.sx, FP_ONE);
    assert_eq!(ev.view.tx, 0);
}

#[test]
fn non_empty_cells_lists_content_row_major() {
    let e = Panel::empty();
    let warp = Panel::new(PanelKind::Warp);
    let ice = Panel::new(PanelKind::Ice);
    let rows = vec![
        vec![e, ice, e],
        vec![warp, e, ice],
    ];
    let f = Field::new_slice(&rows);
    let cells = f.non_empty_cells();
    assert_eq!(
        cells,
        vec![
            (1, 0, PanelKind::Ice),
            (0, 1, PanelKind::Warp),
            (2, 1, PanelKind::Ice),
        ]
    );
}

#[test]
fn view_equality_tracks_effective_change() {
    let a = EditorView::new_example();
    let mut b = EditorView::new_example();
    assert!(a == b);
    b.pan((px(1), 0));
    assert!(a != b);
    let mut c = EditorView::new_example();
    c.selected = PanelKind::Ice;
    assert!(a != c);
    let mut d = EditorView::new_example();
    *d.field_mut() = d.field.resize_to((6, 6), (0, 0));
    assert!(a == d);
    *d.field_mut() = d.field.resize_to((7, 6), (0, 0));
    assert!(a != d);
}

#[test]
fn flex_fits_refuses_outlandish_growth() {
    let ev = EditorView::new_example();
    // a position millions of pixels away would need a board beyond the
    // dimension bound
    assert!(!ev.flex_fits((px(10_000_000), 0)));
    assert!(ev.flex_fits((px(64), px(64))));
}

#[test]
fn cells_lists_every_position_row_major() {
    let e = Panel::empty();
    let warp = Panel::new(PanelKind::Warp);
    let rows = vec![vec![e, warp], vec![warp, e]];
    let f = Field::new_slice(&rows);
    assert_eq!(
        f.cells(),
        vec![(0, 0, e), (1, 0, warp), (0, 1, warp), (1, 1, e)]
    );
}

#[test]
fn content_bounds_of_example() {
    let ev = EditorView::new_example();
    assert_eq!(ev.field.content_bounds(), (0, 6, 0, 6));
    let empty = Field::new_filled(4, 3, Panel::empty());
    assert_eq!(empty.content_bounds(), (0, 0, 0, 0));
}
