//! The immediate-mode widget state machine and the render reconciler.
//!
//! A [`TermUi`] is queried once per logical widget per frame through
//! [`TermUi::button`]; it accumulates pending glyph writes bottom-up and
//! resolves hover and activation against the frame's pointer snapshot.
//! [`TermUi::flush`] maps the accumulated writes onto absolute grid
//! coordinates and resets the context for the next frame.

use crate::geometry::GridPoint;
use crate::geometry::rect_contains;
use crate::geometry::rect_contains_point;
use crate::mouse_state::MouseState;
use vstd::prelude::*;

verus! {

/// A widget id. `0` means "no widget"; `-1` is the sentinel "something else is
/// active, suppress new activation". Ids are assigned sequentially per frame in
/// call order, so they are stable across frames only while the call order is.
pub type Id = i32;

/// A color of the fixed widget palette. The host render layer decides what
/// each name looks like on screen.
#[derive(Clone, Copy, Debug, PartialEq, Eq)]
pub enum UiColor {
    Black,
    White,
    DarkGray,
    AntiqueWhite,
}

/// One pending cell write: a glyph and its two colors.
#[derive(Clone, Copy, Debug, PartialEq, Eq)]
pub struct Tile {
    pub glyph: char,
    pub fg_color: UiColor,
    pub bg_color: UiColor,
}

/// Cross-frame interaction state: the write cursor and which widget ids are
/// active and hovered.
#[derive(Clone, Copy, Debug)]
pub struct UiState {
    /// Where the next widget's glyphs are written, in grid-cell coordinates.
    pub cursor_pos: GridPoint,
    /// The widget owning the primary-button press, `0` for none, `-1` for the
    /// suppression sentinel.
    pub active: Id,
    /// The widget under the pointer; cleared to `0` at the end of every
    /// widget evaluation, so between calls it reflects only the last widget.
    pub hovered: Id,
}

/// One flushed cell: `tile` goes to column `x`, row `y` of the grid.
#[derive(Clone, Copy, Debug, PartialEq, Eq)]
pub struct Placement {
    pub x: usize,
    pub y: usize,
    pub tile: Tile,
}

/// The immediate-mode UI context for one grid surface. It owns the
/// cross-frame interaction state, this frame's pointer snapshot, the pending
/// glyph writes and per-row extents, and the per-frame id counter.
pub struct TermUi {
    pub state: UiState,
    pub mouse: MouseState,
    /// The target grid's size in cells.
    pub size: GridPoint,
    /// Pending glyph writes, in the order the widgets produced them.
    pub writes: Vec<Tile>,
    /// The recorded horizontal extent of each row, oldest first.
    pub lines: Vec<usize>,
    /// The last widget id handed out this frame; `0` after a reset.
    pub id: Id,
}

/// The mathematical model of a [`TermUi`].
#[verifier::ext_equal]
pub ghost struct UiView {
    pub cursor: (int, int),
    pub active: int,
    pub hovered: int,
    pub next_id: int,
    pub writes: Seq<Tile>,
    pub lines: Seq<int>,
    pub size: (int, int),
    pub mouse: MouseState,
}

impl View for TermUi {
    type V = UiView;

    open spec fn view(&self) -> UiView {
        UiView {
            cursor: (self.state.cursor_pos.x as int, self.state.cursor_pos.y as int),
            active: self.state.active as int,
            hovered: self.state.hovered as int,
            next_id: self.id as int,
            writes: self.writes@,
            lines: self.lines@.map(|i: int, n: usize| n as int),
            size: (self.size.x as int, self.size.y as int),
            mouse: self.mouse,
        }
    }
}

/// A widget's bounding width: its visible characters plus two cells of
/// padding and border.
pub open spec fn widget_len(label: Seq<char>) -> int {
    label.len() + 2int
}

/// The pointer lies within the one-row bounding rectangle whose bottom-left
/// corner is the current write cursor.
pub open spec fn hit(s: UiView, len: int) -> bool {
    match s.mouse.pos {
        Some(p) => rect_contains(s.cursor.0, s.cursor.1, len, 1, p.x as int, p.y as int),
        None => false,
    }
}

/// The hovered id at the moment a widget's hit test has run: the widget
/// itself on a hit, the incoming value otherwise.
pub open spec fn eval_hovered(s: UiView, len: int) -> int {
    if hit(s, len) {
        s.next_id + 1
    } else {
        s.hovered
    }
}

/// The active id at the moment a widget's hit test has run: the widget claims
/// activation only on a hit, with nothing else active, while the primary
/// button is held.
pub open spec fn eval_active(s: UiView, len: int) -> int {
    if hit(s, len) && s.active == 0 && s.mouse.lmb.held {
        s.next_id + 1
    } else {
        s.active
    }
}

/// The three-way visual state: pressed when hovered and active, hover when
/// only hovered, idle otherwise. Foreground first, background second.
pub open spec fn style_colors(hovered: bool, active: bool) -> (UiColor, UiColor) {
    if hovered {
        if active {
            (UiColor::AntiqueWhite, UiColor::White)
        } else {
            (UiColor::White, UiColor::DarkGray)
        }
    } else {
        (UiColor::Black, UiColor::White)
    }
}

/// One glyph in one style.
pub open spec fn tile_of(c: char, fg: UiColor, bg: UiColor) -> Tile {
    Tile { glyph: c, fg_color: fg, bg_color: bg }
}

/// The label rendered in one style, one tile per character.
pub open spec fn styled_tiles(label: Seq<char>, fg: UiColor, bg: UiColor) -> Seq<Tile>
    decreases label.len(),
{
    if label.len() <= 0 {
        Seq::empty()
    } else {
        styled_tiles(label.drop_last(), fg, bg).push(tile_of(label.last(), fg, bg))
    }
}

/// A styled label has one tile per character: the character itself, in the
/// one style.
pub proof fn lemma_styled_tiles_len(label: Seq<char>, fg: UiColor, bg: UiColor)
    ensures
        styled_tiles(label, fg, bg).len() == label.len(),
    decreases label.len(),
{
    if label.len() > 0 {
        lemma_styled_tiles_len(label.drop_last(), fg, bg);
    }
}

/// The tile at position `i` of a styled label renders exactly character `i`.
pub proof fn lemma_styled_tiles_index(label: Seq<char>, fg: UiColor, bg: UiColor, i: int)
    requires
        0 <= i < label.len(),
    ensures
        styled_tiles(label, fg, bg).len() == label.len(),
        styled_tiles(label, fg, bg)[i] == tile_of(label[i], fg, bg),
    decreases label.len(),
{
    lemma_styled_tiles_len(label, fg, bg);
    if i < label.len() - 1 {
        lemma_styled_tiles_index(label.drop_last(), fg, bg, i);
    }
}

/// What one `button` call does to the context.
pub open spec fn button_step(s: UiView, label: Seq<char>) -> UiView {
    let len = widget_len(label);
    let id = s.next_id + 1;
    let hov = eval_hovered(s, len);
    let act = eval_active(s, len);
    let sty = style_colors(hov == id, act == id);
    UiView {
        cursor: (s.cursor.0 + label.len(), s.cursor.1 - 1),
        active: act,
        hovered: 0,
        next_id: id,
        writes: s.writes + styled_tiles(label, sty.0, sty.1),
        lines: s.lines.push(s.cursor.0 + label.len()),
        size: s.size,
        mouse: s.mouse,
    }
}

/// What one `button` call returns: the widget was clicked, that is, it is
/// both hovered and active at the end of its evaluation and the primary
/// button was released this frame.
pub open spec fn button_ret(s: UiView, label: Seq<char>) -> bool {
    let len = widget_len(label);
    let id = s.next_id + 1;
    &&& eval_hovered(s, len) == id
    &&& eval_active(s, len) == id
    &&& s.mouse.lmb.released
}

/// What the end-of-frame reset does: release activation when the primary
/// button is up; raise the suppression sentinel when the button is still held
/// but nothing claimed it this frame; clear the buffers and the id counter;
/// park the cursor at the grid's bottom-left row.
pub open spec fn finish_step(s: UiView) -> UiView {
    UiView {
        cursor: (0, s.size.1 - 1),
        active: if !s.mouse.lmb.held {
            0
        } else if s.active == 0 {
            -1
        } else {
            s.active
        },
        hovered: s.hovered,
        next_id: 0,
        writes: Seq::empty(),
        lines: Seq::empty(),
        size: s.size,
        mouse: s.mouse,
    }
}

/// The smaller of `a` and `b`.
pub open spec fn clip(a: int, b: int) -> int {
    if a <= b {
        a
    } else {
        b
    }
}

/// How many pending writes the first `i` recorded rows consume together.
pub open spec fn consumed(lines: Seq<int>, i: int) -> int
    decreases i,
{
    if i <= 0 {
        0
    } else {
        consumed(lines, i - 1) + lines[i - 1]
    }
}

proof fn lemma_consumed_nonneg(lines: Seq<int>, i: int)
    requires
        forall|j: int| 0 <= j < lines.len() ==> lines[j] >= 0,
        0 <= i <= lines.len(),
    ensures
        consumed(lines, i) >= 0,
    decreases i,
{
    if i > 0 {
        lemma_consumed_nonneg(lines, i - 1);
    }
}

/// The cells one row receives: its recorded extent left-to-right from column
/// 0 at row `y`, each cell backed by the pending write at `start` plus its
/// column, cut short where the pending writes run out.
pub open spec fn row_cells(writes: Seq<Tile>, start: int, count: int, y: int) -> Seq<Placement>
    decreases count,
{
    if count <= 0 {
        Seq::empty()
    } else {
        let prefix = row_cells(writes, start, count - 1, y);
        if 0 <= start + count - 1 < writes.len() {
            prefix.push(
                Placement {
                    x: (count - 1) as usize,
                    y: y as usize,
                    tile: writes[start + count - 1],
                },
            )
        } else {
            prefix
        }
    }
}

/// The cells of the recorded rows from index `i` on, stacked bottom-up: row
/// `i` lands `i` steps above the grid's bottom row. Rows past the grid's top
/// produce nothing.
pub open spec fn flush_cells_from(
    writes: Seq<Tile>,
    lines: Seq<int>,
    height: int,
    i: int,
) -> Seq<Placement>
    decreases lines.len() - i,
{
    if i < 0 || i >= lines.len() || i >= height {
        Seq::empty()
    } else {
        row_cells(writes, consumed(lines, i), lines[i], height - 1 - i) + flush_cells_from(
            writes,
            lines,
            height,
            i + 1,
        )
    }
}

/// Every cell the reconciler hands to the grid for one frame: the recorded
/// rows stacked bottom-up from the grid's bottom row, each consuming its
/// extent from the front of the pending writes, in production order.
pub open spec fn flush_cells(writes: Seq<Tile>, lines: Seq<int>, height: int) -> Seq<Placement> {
    flush_cells_from(writes, lines, height, 0)
}

/// What installing a frame's inputs does: only the grid size and the pointer
/// snapshot change.
pub open spec fn frame_input(s: UiView, size: (int, int), mouse: MouseState) -> UiView {
    UiView { size, mouse, ..s }
}

impl TermUi {
    /// A context for a grid of the given size, with the write cursor parked at
    /// the bottom-left row and no interaction recorded.
    pub fn new(size: GridPoint) -> (ui: TermUi)
        requires
            size.y > i32::MIN,
        ensures
            ui@ == (UiView {
                cursor: (0, size.y - 1),
                active: 0,
                hovered: 0,
                next_id: 0,
                writes: Seq::empty(),
                lines: Seq::empty(),
                size: (size.x as int, size.y as int),
                mouse: MouseState::cleared(),
            }),
    {
        let ui = TermUi {
            state: UiState { cursor_pos: GridPoint { x: 0, y: size.y - 1 }, active: 0, hovered: 0 },
            mouse: MouseState::cleared(),
            size,
            writes: Vec::new(),
            lines: Vec::new(),
            id: 0,
        };
        proof {
            assert(ui@.lines =~= Seq::<int>::empty());
            assert(ui@ =~= (UiView {
                cursor: (0, size.y - 1),
                active: 0,
                hovered: 0,
                next_id: 0,
                writes: Seq::empty(),
                lines: Seq::empty(),
                size: (size.x as int, size.y as int),
                mouse: MouseState::cleared(),
            }));
        }
        ui
    }

    /// Install this frame's grid size and pointer snapshot. The host computes
    /// both once per frame and hands each context its own copy.
    pub fn begin_frame(&mut self, size: GridPoint, mouse: MouseState)
        ensures
            final(self)@ == frame_input(old(self)@, (size.x as int, size.y as int), mouse),
    {
        self.size = size;
        self.mouse = mouse;
        proof {
            assert(self@ =~= frame_input(old(self)@, (size.x as int, size.y as int), mouse));
        }
    }

    /// Hand out the next widget id of this frame.
    fn get_id(&mut self) -> (id: Id)
        requires
            old(self).id < i32::MAX,
        ensures
            id == old(self).id + 1,
            final(self).id == old(self).id + 1,
            final(self).state == old(self).state,
            final(self).mouse == old(self).mouse,
            final(self).size == old(self).size,
            final(self).writes@ == old(self).writes@,
            final(self).lines@ == old(self).lines@,
    {
        let id = self.id + 1;
        self.id += 1;
        id
    }

    /// Append one styled glyph at the write cursor and advance it rightward.
    fn write(&mut self, glyph: char, fg: UiColor, bg: UiColor)
        requires
            old(self).state.cursor_pos.x < i32::MAX,
        ensures
            final(self).writes@ == old(self).writes@.push(Tile { glyph, fg_color: fg, bg_color: bg }),
            final(self).state.cursor_pos.x == old(self).state.cursor_pos.x + 1,
            final(self).state.cursor_pos.y == old(self).state.cursor_pos.y,
            final(self).state.active == old(self).state.active,
            final(self).state.hovered == old(self).state.hovered,
            final(self).mouse == old(self).mouse,
            final(self).size == old(self).size,
            final(self).lines@ == old(self).lines@,
            final(self).id == old(self).id,
    {
        let tile = Tile { glyph, fg_color: fg, bg_color: bg };
        self.writes.push(tile);
        self.state.cursor_pos.x += 1;
    }

    /// Advance the write cursor one row upward; report whether it is still on
    /// the grid, so that running out of vertical space is observable.
    fn newline(&mut self) -> (on_grid: bool)
        requires
            old(self).state.cursor_pos.y > i32::MIN,
        ensures
            final(self).state.cursor_pos.y == old(self).state.cursor_pos.y - 1,
            on_grid == (final(self).state.cursor_pos.y >= 0),
            final(self).state.cursor_pos.x == old(self).state.cursor_pos.x,
            final(self).state.active == old(self).state.active,
            final(self).state.hovered == old(self).state.hovered,
            final(self).mouse == old(self).mouse,
            final(self).size == old(self).size,
            final(self).writes@ == old(self).writes@,
            final(self).lines@ == old(self).lines@,
            final(self).id == old(self).id,
    {
        self.state.cursor_pos.y -= 1;
        self.state.cursor_pos.y >= 0
    }

    /// Declare one widget for this frame: assign it the next id, hit-test it
    /// against the pointer snapshot, append its label to the pending writes in
    /// the style its state selects, record the row's horizontal extent, move
    /// the cursor to the next row upward, and report whether the widget was
    /// clicked. The hovered mark is cleared again before returning, so only
    /// the last evaluated widget's hover survives past the call.
    pub fn button(&mut self, label: &str) -> (clicked: bool)
        requires
            old(self).id < i32::MAX,
            old(self).state.cursor_pos.x >= 0,
            old(self).state.cursor_pos.x + label@.len() + 2 <= i32::MAX,
            old(self).state.cursor_pos.y > i32::MIN,
        ensures
            final(self)@ == button_step(old(self)@, label@),
            clicked == button_ret(old(self)@, label@),
    {
        let ghost len_spec = widget_len(label@);
        let ghost idv = old(self)@.next_id + 1;

        let id = self.get_id();
        let p = self.state.cursor_pos;
        let n = label.unicode_len();
        let len: usize = n + 2;

        if let Some(mpos) = self.mouse.pos {
            if rect_contains_point(p, len, 1, mpos) {
                self.state.hovered = id;
                if self.state.active == 0 && self.mouse.lmb.held {
                    self.state.active = id;
                }
            }
        }
        proof {
            assert(self.state.hovered as int == eval_hovered(old(self)@, len_spec));
            assert(self.state.active as int == eval_active(old(self)@, len_spec));
        }
        let ghost hov0 = self.state.hovered;
        let ghost act0 = self.state.active;

        let style = if self.state.hovered == id {
            if self.state.active == id {
                (UiColor::AntiqueWhite, UiColor::White)
            } else {
                (UiColor::White, UiColor::DarkGray)
            }
        } else {
            (UiColor::Black, UiColor::White)
        };
        let fg = style.0;
        let bg = style.1;
        proof {
            assert((fg, bg) == style_colors(
                eval_hovered(old(self)@, len_spec) == idv,
                eval_active(old(self)@, len_spec) == idv,
            ));
        }

        proof {
            assert(styled_tiles(label@.take(0), fg, bg) =~= Seq::<Tile>::empty());
            assert(self.writes@ =~= old(self).writes@ + styled_tiles(label@.take(0), fg, bg));
        }
        let mut i: usize = 0;
        while i < n
            invariant
                i <= n,
                n == label@.len(),
                old(self).state.cursor_pos.x >= 0,
                old(self).state.cursor_pos.x + n + 2 <= i32::MAX,
                self.state.cursor_pos.x as int == old(self).state.cursor_pos.x as int + i as int,
                self.state.cursor_pos.y == old(self).state.cursor_pos.y,
                self.state.hovered == hov0,
                self.state.active == act0,
                self.mouse == old(self).mouse,
                self.size == old(self).size,
                self.writes@ == old(self).writes@ + styled_tiles(label@.take(i as int), fg, bg),
                self.lines@ == old(self).lines@,
                self.id as int == old(self).id as int + 1,
            decreases n - i,
        {
            let c = label.get_char(i);
            self.write(c, fg, bg);
            proof {
                let t = Tile { glyph: c, fg_color: fg, bg_color: bg };
                assert(label@.take(i as int + 1).drop_last() =~= label@.take(i as int));
                assert(styled_tiles(label@.take(i as int + 1), fg, bg) == styled_tiles(
                    label@.take(i as int),
                    fg,
                    bg,
                ).push(t));
                assert(self.writes@ =~= old(self).writes@ + styled_tiles(
                    label@.take(i as int + 1),
                    fg,
                    bg,
                ));
            }
            i += 1;
        }
        proof {
            assert(label@.take(n as int) =~= label@);
        }

        self.lines.push(self.state.cursor_pos.x as usize);
        proof {
            assert(self.lines@.map(|j: int, m: usize| m as int) =~= old(self).lines@.map(
                |j: int, m: usize| m as int,
            ).push(old(self).state.cursor_pos.x as int + n as int));
        }
        self.newline();

        let released = self.mouse.lmb.released;
        let hovered = self.state.hovered == id;
        let active = self.state.active == id;

        self.state.hovered = 0;

        proof {
            assert(self@ =~= button_step(old(self)@, label@));
        }
        hovered && active && released
    }

    /// Reconcile the frame: walk the recorded rows bottom-up from the grid's
    /// bottom row, pair each row's extent with pending writes left-to-right
    /// from column 0, and return the absolute cell placements for the grid;
    /// then reset the context for the next frame.
    #[verifier::loop_isolation(false)]
    pub fn flush(&mut self) -> (cells: Vec<Placement>)
        requires
            old(self).size.y > i32::MIN,
        ensures
            cells@ == flush_cells(old(self)@.writes, old(self)@.lines, old(self)@.size.1),
            final(self)@ == finish_step(old(self)@),
    {
        let ghost wv = self@.writes;
        let ghost lv = self@.lines;
        let ghost h = self@.size.1;
        proof {
            assert(forall|j: int| 0 <= j < lv.len() ==> lv[j] >= 0);
            assert(lv.len() == self.lines@.len());
        }

        let mut cells: Vec<Placement> = Vec::new();
        let total = self.writes.len();
        let rows: usize = if self.size.y <= 0 {
            0
        } else if self.lines.len() < self.size.y as usize {
            self.lines.len()
        } else {
            self.size.y as usize
        };

        let mut start: usize = 0;
        let mut i: usize = 0;
        while i < rows
            invariant
                i <= rows,
                start as int == clip(consumed(lv, i as int), wv.len() as int),
                cells@ + flush_cells_from(wv, lv, h, i as int) == flush_cells(wv, lv, h),
            decreases rows - i,
        {
            let line = self.lines[i];
            let y: usize = self.size.y as usize - 1 - i;
            let ghost row_start = consumed(lv, i as int);
            let ghost cells_before = cells@;
            proof {
                lemma_consumed_nonneg(lv, i as int);
                assert(row_cells(wv, row_start, 0, y as int) =~= Seq::<Placement>::empty());
                assert(cells@ =~= cells_before + row_cells(wv, row_start, 0, y as int));
            }

            let mut x: usize = 0;
            while x < line
                invariant
                    x <= line,
                    start as int == clip(row_start + x as int, wv.len() as int),
                    cells@ == cells_before + row_cells(wv, row_start, x as int, y as int),
                decreases line - x,
            {
                if start < total {
                    let tile = self.writes[start];
                    cells.push(Placement { x, y, tile });
                    start += 1;
                }
                proof {
                    assert(cells@ =~= cells_before + row_cells(
                        wv,
                        row_start,
                        x as int + 1,
                        y as int,
                    ));
                }
                x += 1;
            }

            proof {
                assert(consumed(lv, i as int + 1) == row_start + lv[i as int]);
                assert(flush_cells_from(wv, lv, h, i as int) == row_cells(
                    wv,
                    row_start,
                    lv[i as int],
                    h - 1 - i as int,
                ) + flush_cells_from(wv, lv, h, i as int + 1));
                assert(cells@ + flush_cells_from(wv, lv, h, i as int + 1) =~= cells_before
                    + flush_cells_from(wv, lv, h, i as int));
            }
            i += 1;
        }
        proof {
            assert(flush_cells_from(wv, lv, h, i as int) =~= Seq::<Placement>::empty());
            assert(cells@ =~= flush_cells(wv, lv, h));
        }

        self.on_finish();
        cells
    }

    /// The end-of-frame reset, run after the pending writes were consumed.
    fn on_finish(&mut self)
        requires
            old(self).size.y > i32::MIN,
        ensures
            final(self)@ == finish_step(old(self)@),
    {
        if !self.mouse.lmb.held {
            self.state.active = 0;
        } else if self.state.active == 0 {
            self.state.active = -1;
        }
        self.writes.clear();
        self.lines.clear();
        self.id = 0;
        self.state.cursor_pos = GridPoint { x: 0, y: self.size.y - 1 };
        proof {
            assert(self@.lines =~= finish_step(old(self)@).lines);
            assert(self@ =~= finish_step(old(self)@));
        }
    }
}

} // verus!
