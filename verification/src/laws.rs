//! Frame-level laws of the widget state machine.
//!
//! A frame is a sequence of [`crate::TermUi::button`] calls between two
//! resets; [`frame_steps`] folds their effect over the model. The public
//! proof functions here state what holds of every such frame.

use crate::gui::UiView;
use crate::gui::button_ret;
use crate::gui::button_step;
use crate::gui::eval_active;
use crate::gui::eval_hovered;
use crate::gui::finish_step;
use crate::gui::frame_input;
use crate::gui::hit;
use crate::gui::widget_len;
use crate::mouse_state::MouseState;
use vstd::prelude::*;

verus! {

/// The state after evaluating the frame's widgets in call order, starting
/// from `s`.
pub open spec fn frame_steps(s: UiView, labels: Seq<Seq<char>>) -> UiView
    decreases labels.len(),
{
    if labels.len() == 0 {
        s
    } else {
        button_step(frame_steps(s, labels.drop_last()), labels.last())
    }
}

/// Evaluating widgets never touches the pointer snapshot or the grid size.
proof fn lemma_frame_mouse_size(s: UiView, labels: Seq<Seq<char>>)
    ensures
        frame_steps(s, labels).mouse == s.mouse,
        frame_steps(s, labels).size == s.size,
    decreases labels.len(),
{
    if labels.len() > 0 {
        lemma_frame_mouse_size(s, labels.drop_last());
    }
}

/// Each call advances the id counter by exactly one.
proof fn lemma_frame_next_id(s: UiView, labels: Seq<Seq<char>>)
    ensures
        frame_steps(s, labels).next_id == s.next_id + labels.len(),
    decreases labels.len(),
{
    if labels.len() > 0 {
        lemma_frame_next_id(s, labels.drop_last());
    }
}

/// A nonzero active id survives every widget evaluation of the frame: only a
/// frame's reset can release or reassign it.
proof fn lemma_frame_active_persists(s: UiView, labels: Seq<Seq<char>>)
    requires
        s.active != 0,
    ensures
        frame_steps(s, labels).active == s.active,
    decreases labels.len(),
{
    if labels.len() > 0 {
        lemma_frame_active_persists(s, labels.drop_last());
    }
}

/// Where the widgets land, and which ids they get, depends only on the write
/// cursor, the id counter, and the labels: never on the pointer.
proof fn lemma_frame_layout(s1: UiView, s2: UiView, labels: Seq<Seq<char>>)
    requires
        s1.cursor == s2.cursor,
        s1.next_id == s2.next_id,
    ensures
        frame_steps(s1, labels).cursor == frame_steps(s2, labels).cursor,
        frame_steps(s1, labels).next_id == frame_steps(s2, labels).next_id,
    decreases labels.len(),
{
    if labels.len() > 0 {
        lemma_frame_layout(s1, s2, labels.drop_last());
    }
}

/// Evaluating the first `k + 1` widgets is evaluating the first `k` and then
/// the widget at `k`.
proof fn lemma_frame_snoc(s: UiView, labels: Seq<Seq<char>>, k: int)
    requires
        0 <= k < labels.len(),
    ensures
        frame_steps(s, labels.take(k + 1)) == button_step(
            frame_steps(s, labels.take(k)),
            labels[k],
        ),
{
    assert(labels.take(k + 1).drop_last() =~= labels.take(k));
    assert(labels.take(k + 1).last() == labels[k]);
    assert(labels.take(k + 1).len() == k + 1);
}

/// A frame splits at any point: evaluate a prefix, then the rest.
proof fn lemma_frame_split(s: UiView, labels: Seq<Seq<char>>, m: int)
    requires
        0 <= m <= labels.len(),
    ensures
        frame_steps(s, labels) == frame_steps(frame_steps(s, labels.take(m)), labels.skip(m)),
    decreases labels.len(),
{
    if m == labels.len() {
        assert(labels.take(m) =~= labels);
        assert(labels.skip(m) =~= Seq::<Seq<char>>::empty());
    } else {
        lemma_frame_split(s, labels.drop_last(), m);
        assert(labels.drop_last().take(m) =~= labels.take(m));
        assert(labels.drop_last().skip(m) =~= labels.skip(m).drop_last());
        assert(labels.skip(m).len() > 0);
        assert(labels.skip(m).last() == labels.last());
    }
}

/// Law (one hovered widget per evaluation): in a frame begun with no hovered
/// widget, every `button` call starts with the hovered id cleared, and at the
/// moment its own hit test has run the hovered id is either `0` or the call's
/// own id — never another widget's.
pub proof fn lemma_hover_single_per_eval(s: UiView, labels: Seq<Seq<char>>, k: int)
    requires
        s.hovered == 0,
        0 <= k < labels.len(),
    ensures
        frame_steps(s, labels.take(k)).hovered == 0,
        eval_hovered(frame_steps(s, labels.take(k)), widget_len(labels[k])) == 0 || eval_hovered(
            frame_steps(s, labels.take(k)),
            widget_len(labels[k]),
        ) == frame_steps(s, labels.take(k)).next_id + 1,
{
    if k == 0 {
        assert(labels.take(0) =~= Seq::<Seq<char>>::empty());
    } else {
        assert(labels.take(k).len() == k);
    }
}

/// Law (ids are fresh within a frame): ids grow by one per call, so any two
/// calls of one frame — in particular the same widget evaluated twice — get
/// different ids; nothing reuses an id before the reset.
pub proof fn lemma_ids_fresh(s: UiView, labels: Seq<Seq<char>>, j: int, k: int)
    requires
        0 <= j < k < labels.len(),
    ensures
        frame_steps(s, labels.take(j)).next_id + 1 == s.next_id + j + 1,
        frame_steps(s, labels.take(k)).next_id + 1 == s.next_id + k + 1,
        frame_steps(s, labels.take(j)).next_id + 1 != frame_steps(s, labels.take(k)).next_id + 1,
{
    lemma_frame_next_id(s, labels.take(j));
    lemma_frame_next_id(s, labels.take(k));
}

/// Law (a full frame cycle resets the context): after evaluation and
/// reconciliation the pending writes and row extents are empty, the id
/// counter is zero, and the cursor is parked at the grid's bottom-left row —
/// whatever the frame's widgets did.
pub proof fn lemma_frame_cycle_resets(s: UiView, labels: Seq<Seq<char>>)
    ensures
        finish_step(frame_steps(s, labels)).writes.len() == 0,
        finish_step(frame_steps(s, labels)).lines.len() == 0,
        finish_step(frame_steps(s, labels)).next_id == 0,
        finish_step(frame_steps(s, labels)).cursor == (0int, s.size.1 - 1),
{
    lemma_frame_mouse_size(s, labels);
}

/// Law (absent pointer): when the frame's snapshot has no pointer position,
/// no hit test can succeed: every `button` call of the frame returns false,
/// evaluation leaves the active id exactly as it was, and the hovered id
/// stays cleared. Only the reset's release rule may change the active id
/// afterwards.
pub proof fn lemma_pointer_absent(s: UiView, labels: Seq<Seq<char>>, k: int)
    requires
        s.mouse.pos is None,
        s.hovered == 0,
        s.next_id >= 0,
        0 <= k < labels.len(),
    ensures
        !button_ret(frame_steps(s, labels.take(k)), labels[k]),
        frame_steps(s, labels).active == s.active,
        frame_steps(s, labels).hovered == 0,
{
    lemma_pointer_absent_active(s, labels);
    lemma_frame_mouse_size(s, labels.take(k));
    lemma_frame_next_id(s, labels.take(k));
    lemma_hover_single_per_eval(s, labels, k);
    assert(labels.take(k).len() == k);
    if labels.len() > 0 {
    } else {
        assert(frame_steps(s, labels) == s);
    }
}

/// With no pointer position, widget evaluation never changes the active id.
proof fn lemma_pointer_absent_active(s: UiView, labels: Seq<Seq<char>>)
    requires
        s.mouse.pos is None,
    ensures
        frame_steps(s, labels).active == s.active,
        labels.len() > 0 ==> frame_steps(s, labels).hovered == 0,
    decreases labels.len(),
{
    if labels.len() > 0 {
        lemma_pointer_absent_active(s, labels.drop_last());
        lemma_frame_mouse_size(s, labels.drop_last());
    }
}

/// Law (a captured press turns into a click exactly on a sustained hover):
/// take a frame begun fresh — counter zero, nothing hovered, cursor parked —
/// in which the pointer sits inside widget `k`'s bounds, the primary button
/// is held, and nothing is active yet when `k` evaluates: widget `k` captures
/// activation. If the same widgets are declared next frame on the same grid,
/// widget `k` keeps the same id, and its call reports a click precisely when
/// the new snapshot has the primary button released this frame and the
/// pointer still inside the widget's bounds — in particular, false whenever
/// the pointer has left them.
pub proof fn lemma_press_then_release(
    s: UiView,
    labels: Seq<Seq<char>>,
    k: int,
    mouse2: MouseState,
)
    requires
        s.hovered == 0,
        s.next_id == 0,
        s.cursor == (0int, s.size.1 - 1),
        0 <= k < labels.len(),
        hit(frame_steps(s, labels.take(k)), widget_len(labels[k])),
        s.mouse.lmb.held,
        frame_steps(s, labels.take(k)).active == 0,
    ensures
        ({
            let sb0 = frame_input(finish_step(frame_steps(s, labels)), s.size, mouse2);
            let sbk = frame_steps(sb0, labels.take(k));
            &&& sbk.next_id == frame_steps(s, labels.take(k)).next_id
            &&& sbk.cursor == frame_steps(s, labels.take(k)).cursor
            &&& sbk.active == frame_steps(s, labels.take(k)).next_id + 1
            &&& button_ret(sbk, labels[k]) == (mouse2.lmb.released && hit(
                sbk,
                widget_len(labels[k]),
            ))
        }),
{
    let ska = frame_steps(s, labels.take(k));
    let len = widget_len(labels[k]);
    let idk = ska.next_id + 1;

    lemma_frame_next_id(s, labels.take(k));
    assert(labels.take(k).len() == k);
    assert(idk == k + 1);

    // Widget k captures activation in the press frame.
    lemma_frame_mouse_size(s, labels.take(k));
    assert(eval_active(ska, len) == idk);
    lemma_frame_snoc(s, labels, k);
    let ska1 = frame_steps(s, labels.take(k + 1));
    assert(ska1.active == idk);

    // It stays active through the rest of the frame and through the reset.
    lemma_frame_split(s, labels, k + 1);
    let sa = frame_steps(s, labels);
    lemma_frame_active_persists(ska1, labels.skip(k + 1));
    assert(sa.active == idk);
    lemma_frame_mouse_size(s, labels);
    assert(finish_step(sa).active == idk);

    // The next frame starts from the same layout, so widget k gets the same
    // id and bounds.
    if labels.len() > 0 {
        assert(sa.hovered == 0);
    }
    let sb0 = frame_input(finish_step(sa), s.size, mouse2);
    assert(sb0.cursor == s.cursor);
    assert(sb0.next_id == 0);
    assert(sb0.active == idk);
    assert(sb0.hovered == 0);
    lemma_frame_layout(s, sb0, labels.take(k));
    let sbk = frame_steps(sb0, labels.take(k));
    assert(sbk.next_id == ska.next_id);
    assert(sbk.cursor == ska.cursor);

    // Nothing can steal the activation while it is owned.
    lemma_frame_active_persists(sb0, labels.take(k));
    assert(sbk.active == idk);
    lemma_hover_single_per_eval(sb0, labels, k);
    assert(sbk.hovered == 0);
    lemma_frame_mouse_size(sb0, labels.take(k));
    assert(sbk.mouse == mouse2);

    // The click condition reduces to "released while still inside".
    assert(eval_active(sbk, len) == idk);
    if hit(sbk, len) {
        assert(eval_hovered(sbk, len) == idk);
    } else {
        assert(eval_hovered(sbk, len) == 0);
        assert(idk != 0);
    }
}

} // verus!
