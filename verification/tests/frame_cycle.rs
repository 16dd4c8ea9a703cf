//! Tests that drive whole frames: widget evaluation, hover and activation
//! across frames, reconciliation, and the end-of-frame reset.

use term_ui::ButtonState;
use term_ui::GridPoint;
use term_ui::MouseState;
use term_ui::TermUi;
use term_ui::UiColor;

fn snapshot(pos: Option<(i32, i32)>, clicked: bool, held: bool, released: bool) -> MouseState {
    MouseState {
        lmb: ButtonState { clicked, held, released },
        rmb: ButtonState::empty(),
        mid: ButtonState::empty(),
        pos: pos.map(|(x, y)| GridPoint { x, y }),
    }
}

fn grid20() -> GridPoint {
    GridPoint { x: 20, y: 20 }
}

#[test]
fn new_context_starts_at_bottom_left() {
    let ui = TermUi::new(grid20());
    assert_eq!(ui.state.cursor_pos, GridPoint { x: 0, y: 19 });
    assert_eq!(ui.state.active, 0);
    assert_eq!(ui.state.hovered, 0);
    assert_eq!(ui.id, 0);
    assert!(ui.writes.is_empty());
    assert!(ui.lines.is_empty());
}

// Grid 20x20, single button "Hello" (bounding width 7 with padding) at the
// default cursor (0,19). Pointer at (3,19) with the primary button held:
// hover and activation are taken, but the call reports no click yet. Next
// frame, pointer unchanged, primary just released: the call reports the click.
#[test]
fn press_frame_then_release_frame_clicks() {
    let mut ui = TermUi::new(grid20());
    ui.begin_frame(grid20(), snapshot(Some((3, 19)), true, true, false));
    let clicked = ui.button("Hello");
    assert!(!clicked);
    assert_eq!(ui.state.active, 1);
    assert_eq!(ui.state.hovered, 0, "hover is cleared before the call returns");

    ui.flush();
    ui.begin_frame(grid20(), snapshot(Some((3, 19)), false, false, true));
    let clicked = ui.button("Hello");
    assert!(clicked);
}

#[test]
fn release_outside_bounds_does_not_click() {
    let mut ui = TermUi::new(grid20());
    ui.begin_frame(grid20(), snapshot(Some((3, 19)), true, true, false));
    assert!(!ui.button("Hello"));
    assert_eq!(ui.state.active, 1);

    // The pointer leaves the widget before the release.
    ui.flush();
    ui.begin_frame(grid20(), snapshot(Some((12, 19)), false, false, true));
    assert!(!ui.button("Hello"));
}

// Pointer absent (no camera) for an entire frame: every call reports false
// and hit-testing leaves the interaction state alone.
#[test]
fn absent_pointer_frame_reports_no_clicks() {
    let mut ui = TermUi::new(grid20());
    ui.begin_frame(grid20(), snapshot(None, false, false, false));
    assert!(!ui.button("Hello"));
    assert!(!ui.button("World"));
    assert_eq!(ui.state.active, 0);
    assert_eq!(ui.state.hovered, 0);
}

#[test]
fn absent_pointer_keeps_held_activation() {
    let mut ui = TermUi::new(grid20());
    ui.begin_frame(grid20(), snapshot(Some((3, 19)), true, true, false));
    assert!(!ui.button("Hello"));
    assert_eq!(ui.state.active, 1);
    ui.flush();

    // The camera goes away while the button stays held: the activation is
    // kept, because only a release-without-hold clears it.
    ui.begin_frame(grid20(), snapshot(None, false, true, false));
    assert!(!ui.button("Hello"));
    assert_eq!(ui.state.active, 1);
    ui.flush();
    assert_eq!(ui.state.active, 1);

    // Released with the camera still absent: the reset clears the activation.
    ui.begin_frame(grid20(), snapshot(None, false, false, true));
    assert!(!ui.button("Hello"));
    ui.flush();
    assert_eq!(ui.state.active, 0);
}

// Evaluating the same widget twice in one frame assigns two different ids.
#[test]
fn ids_increase_within_a_frame() {
    let mut ui = TermUi::new(grid20());
    ui.begin_frame(grid20(), snapshot(None, false, false, false));
    ui.button("Same");
    assert_eq!(ui.id, 1);
    ui.button("Same");
    assert_eq!(ui.id, 2);
    ui.flush();
    assert_eq!(ui.id, 0, "ids restart only at the reset");
}

// After a full frame cycle the write buffer, the row extents and the id
// counter are empty or zero and the cursor is parked at row height-1, col 0.
#[test]
fn frame_cycle_resets_context() {
    let mut ui = TermUi::new(grid20());
    ui.begin_frame(grid20(), snapshot(Some((1, 19)), false, false, false));
    ui.button("Hello");
    ui.button("World");
    assert!(!ui.writes.is_empty());
    assert!(!ui.lines.is_empty());
    ui.flush();
    assert!(ui.writes.is_empty());
    assert!(ui.lines.is_empty());
    assert_eq!(ui.id, 0);
    assert_eq!(ui.state.cursor_pos, GridPoint { x: 0, y: 19 });
}

#[test]
fn flush_places_idle_label_on_bottom_row() {
    let mut ui = TermUi::new(grid20());
    ui.begin_frame(grid20(), snapshot(None, false, false, false));
    ui.button("Hi");
    assert_eq!(ui.lines, vec![2]);
    let cells = ui.flush();
    assert_eq!(cells.len(), 2);
    assert_eq!(cells[0].x, 0);
    assert_eq!(cells[0].y, 19);
    assert_eq!(cells[0].tile.glyph, 'H');
    assert_eq!(cells[0].tile.fg_color, UiColor::Black);
    assert_eq!(cells[0].tile.bg_color, UiColor::White);
    assert_eq!(cells[1].x, 1);
    assert_eq!(cells[1].y, 19);
    assert_eq!(cells[1].tile.glyph, 'i');
}

#[test]
fn hovered_label_uses_hover_style() {
    let mut ui = TermUi::new(grid20());
    ui.begin_frame(grid20(), snapshot(Some((1, 19)), false, false, false));
    ui.button("Hi");
    let cells = ui.flush();
    assert_eq!(cells[0].tile.fg_color, UiColor::White);
    assert_eq!(cells[0].tile.bg_color, UiColor::DarkGray);
}

#[test]
fn pressed_label_uses_pressed_style() {
    let mut ui = TermUi::new(grid20());
    ui.begin_frame(grid20(), snapshot(Some((1, 19)), true, true, false));
    ui.button("Hi");
    let cells = ui.flush();
    assert_eq!(cells[0].tile.fg_color, UiColor::AntiqueWhite);
    assert_eq!(cells[0].tile.bg_color, UiColor::White);
}

// The write cursor's column is not reset between widgets, so each recorded
// row extent is the cumulative column, and the reconciler runs out of
// pending writes for later rows. This mirrors the declared reconciliation
// rule: extents are consumed from the front, missing writes are dropped.
#[test]
fn row_extents_are_cumulative_columns() {
    let mut ui = TermUi::new(grid20());
    ui.begin_frame(grid20(), snapshot(None, false, false, false));
    ui.button("A");
    ui.button("B");
    assert_eq!(ui.lines, vec![1, 2]);
    assert_eq!(ui.writes.len(), 2);
    let cells = ui.flush();
    assert_eq!(cells.len(), 2);
    assert_eq!((cells[0].x, cells[0].y, cells[0].tile.glyph), (0, 19, 'A'));
    assert_eq!((cells[1].x, cells[1].y, cells[1].tile.glyph), (0, 18, 'B'));
}

#[test]
fn second_widget_cannot_steal_activation() {
    let mut ui = TermUi::new(grid20());
    // The second widget starts where the first one's row ended, at column 3
    // of row 18; the pointer sits inside its bounds.
    ui.begin_frame(grid20(), snapshot(Some((4, 18)), true, true, false));
    assert!(!ui.button("One"));
    assert_eq!(ui.state.active, 0);
    assert!(!ui.button("Two"));
    assert_eq!(ui.state.active, 2);
    ui.flush();

    ui.begin_frame(grid20(), snapshot(Some((4, 18)), false, false, true));
    assert!(!ui.button("One"));
    assert!(ui.button("Two"));
}

// A press that lands on no widget raises the suppression sentinel at the
// reset, so a widget appearing under the still-held pointer cannot activate.
#[test]
fn stale_press_is_suppressed_by_sentinel() {
    let mut ui = TermUi::new(grid20());
    ui.begin_frame(grid20(), snapshot(Some((15, 2)), true, true, false));
    assert!(!ui.button("Hello"));
    assert_eq!(ui.state.active, 0);
    ui.flush();
    assert_eq!(ui.state.active, -1);

    // Still held, now over the widget: the sentinel blocks activation.
    ui.begin_frame(grid20(), snapshot(Some((1, 19)), false, true, false));
    assert!(!ui.button("Hello"));
    assert_eq!(ui.state.active, -1);
    ui.flush();
    assert_eq!(ui.state.active, -1);

    // Released over the widget: no click, and the reset releases the sentinel.
    ui.begin_frame(grid20(), snapshot(Some((1, 19)), false, false, true));
    assert!(!ui.button("Hello"));
    ui.flush();
    assert_eq!(ui.state.active, 0);
}

// Rows past the grid's top are detectably off-grid: the reconciler does not
// place them.
#[test]
fn rows_above_grid_top_are_not_placed() {
    let one_row = GridPoint { x: 20, y: 1 };
    let mut ui = TermUi::new(one_row);
    ui.begin_frame(one_row, snapshot(None, false, false, false));
    ui.button("A");
    ui.button("B");
    let cells = ui.flush();
    assert_eq!(cells.len(), 1);
    assert_eq!((cells[0].x, cells[0].y, cells[0].tile.glyph), (0, 0, 'A'));
}

#[test]
fn empty_label_still_takes_a_row_and_an_id() {
    let mut ui = TermUi::new(grid20());
    ui.begin_frame(grid20(), snapshot(None, false, false, false));
    ui.button("");
    assert_eq!(ui.id, 1);
    assert_eq!(ui.writes.len(), 0);
    assert_eq!(ui.lines, vec![0]);
    assert_eq!(ui.state.cursor_pos, GridPoint { x: 0, y: 18 });
    let cells = ui.flush();
    assert!(cells.is_empty());
}

// Bounding width counts visible characters, not encoded bytes.
#[test]
fn unicode_label_counts_characters_not_bytes() {
    let mut ui = TermUi::new(grid20());
    // Two characters, three bytes: bounding width 4, covering columns 0..=3.
    let label = "\u{e9}x";
    ui.begin_frame(grid20(), snapshot(Some((3, 19)), true, true, false));
    assert!(!ui.button(label));
    assert_eq!(ui.state.active, 1, "column 3 is still inside the padded bounds");
    assert_eq!(ui.writes.len(), 2);
    assert_eq!(ui.writes[0].glyph, '\u{e9}');
    assert_eq!(ui.writes[1].glyph, 'x');
}

#[test]
fn begin_frame_copies_size_and_snapshot() {
    let mut ui = TermUi::new(grid20());
    let m = snapshot(Some((4, 5)), true, false, false);
    ui.begin_frame(GridPoint { x: 8, y: 9 }, m);
    assert_eq!(ui.size, GridPoint { x: 8, y: 9 });
    assert_eq!(ui.mouse.pos, Some(GridPoint { x: 4, y: 5 }));
    assert!(ui.mouse.lmb.clicked);
}
