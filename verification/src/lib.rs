//! An immediate-mode widget layer for a character-grid render target.
//!
//! Caller code declares widgets anew every frame by calling [`TermUi::button`];
//! the context tracks which widget is hovered or active across frames, lays the
//! labels out bottom-up in a pending write buffer, and a per-frame flush turns
//! the buffer into absolute cell placements for the grid and resets the context.

mod geometry;
mod gui;
pub mod laws;
mod mouse_state;

pub use geometry::GridPoint;
pub use geometry::rect_contains;
pub use geometry::rect_contains_point;
pub use gui::Id;
pub use gui::Placement;
pub use gui::TermUi;
pub use gui::Tile;
pub use gui::UiColor;
pub use gui::UiState;
pub use gui::UiView;
pub use gui::button_ret;
pub use gui::button_step;
pub use gui::clip;
pub use gui::consumed;
pub use gui::eval_active;
pub use gui::eval_hovered;
pub use gui::finish_step;
pub use gui::flush_cells;
pub use gui::flush_cells_from;
pub use gui::frame_input;
pub use gui::hit;
pub use gui::lemma_styled_tiles_index;
pub use gui::lemma_styled_tiles_len;
pub use gui::row_cells;
pub use gui::style_colors;
pub use gui::styled_tiles;
pub use gui::tile_of;
pub use gui::widget_len;
pub use mouse_state::ButtonState;
pub use mouse_state::MouseState;

use vstd::prelude::*;

verus! {

/// Marker for installing the per-frame passes in a host loop: the pointer
/// snapshot update before widget evaluation, and the render flush after it.
/// The wiring itself belongs to the host application.
pub struct TerminalUiPlugin;

} // verus!
