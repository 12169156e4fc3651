//! What holds of every run of the prompt board: the invariant is kept by
//! every event, the hotkey only ever shows the window, a freshly shown window
//! survives one unfocused frame, Escape steps back before it hides, the
//! arrows and Enter move within bounds, and values typed into a form come
//! back when the same prompt is filled again.

use vstd::prelude::*;
use crate::board::{
    board_wf, clamp_selection, edit_field_step, field_focused_step, fill_entries, hide_when_unfocused_step,
    hotkey_step, keyboard_step, open_step, preview_prompt_of, preview_text_of, refresh_step, select_step, show_step,
    ActionView, BoardView, FillView, KeyInput,
};
use crate::prompt::PromptView;
use crate::template_laws::{lemma_render_unfilled, lemma_variables_distinct};
use crate::text::trimmed;
use crate::values::{remember_all, remembered};

verus! {

/// Every key the board reacts to keeps its invariant.
pub proof fn lemma_keyboard_keeps_wf(b: BoardView, keys: KeyInput)
    requires
        board_wf(b),
    ensures
        board_wf(keyboard_step(b, keys).0),
{
}

/// A new search result keeps the invariant.
pub proof fn lemma_refresh_keeps_wf(b: BoardView, outcome: Result<Seq<PromptView>, Seq<char>>)
    requires
        board_wf(b),
    ensures
        board_wf(refresh_step(b, outcome)),
{
}

/// Clicks, double clicks, focus changes and typing keep the invariant.
pub proof fn lemma_pointer_events_keep_wf(b: BoardView, index: nat, value: Seq<char>)
    requires
        board_wf(b),
        index < b.prompts.len(),
    ensures
        board_wf(select_step(b, index)),
        board_wf(open_step(b, index).0),
        board_wf(field_focused_step(b, index)),
        board_wf(edit_field_step(b, index, value)),
{
}

/// Running the same search again changes nothing.
pub proof fn lemma_refresh_same_list(b: BoardView)
    requires
        board_wf(b),
    ensures
        refresh_step(b, Ok(b.prompts)) == b,
{
    assert(BoardView { prompts: b.prompts, selected: clamp_selection(b.selected, b.prompts.len()), ..b } == b);
}

/// The global hotkey shows the window whether or not it was visible; it
/// never hides it.
pub proof fn lemma_hotkey_only_shows(b: BoardView)
    ensures
        hotkey_step(b, true).0.visible,
        hotkey_step(b, true).1 == ActionView::ShowWindow,
        hotkey_step(b, false) == (b, ActionView::Nothing),
{
}

/// A window just shown stays visible through the next frame without focus,
/// and hides in the frame after that if it still lacks the focus.
pub proof fn lemma_shown_window_survives_one_unfocused_frame(b: BoardView)
    ensures
        ({
            let b1 = show_step(b).0;
            let (b2, a2) = hide_when_unfocused_step(b1, false);
            let (b3, a3) = hide_when_unfocused_step(b2, false);
            &&& b2.visible
            &&& a2 == ActionView::Nothing
            &&& !b3.visible
            &&& a3 == ActionView::HideWindow
        }),
{
}

/// Escape in the form goes back to the list and keeps the window; Escape in
/// the list hides it.
pub proof fn lemma_escape_steps_back_then_hides(b: BoardView, keys: KeyInput)
    requires
        keys.escape,
    ensures
        b.fill is Some ==> ({
            let (b1, a1) = keyboard_step(b, keys);
            &&& b1.fill is None
            &&& b1.visible == b.visible
            &&& a1 == ActionView::FocusSearch
            &&& keyboard_step(b1, keys).0.visible == false
            &&& keyboard_step(b1, keys).1 == ActionView::HideWindow
        }),
        b.fill is None ==> !keyboard_step(b, keys).0.visible,
{
}

/// In the list, the down arrow and then the up arrow come back to the same
/// prompt unless the selection was on the last one; the up arrow stops at the
/// first prompt and the down arrow at the last.
pub proof fn lemma_arrows(b: BoardView, down: KeyInput, up: KeyInput)
    requires
        board_wf(b),
        b.fill is None,
        !down.escape && !down.copy && !down.enter && down.arrow_down && !down.arrow_up,
        !up.escape && !up.copy && !up.enter && !up.arrow_down && up.arrow_up,
    ensures
        b.selected + 1 < b.prompts.len() ==> keyboard_step(keyboard_step(b, down).0, up).0 == b,
        b.selected == 0 ==> keyboard_step(b, up).0.selected == 0,
        b.prompts.len() > 0 && b.selected == b.prompts.len() - 1 ==> keyboard_step(
            b,
            down,
        ).0.selected == b.selected,
{
    if b.selected + 1 < b.prompts.len() {
        let b1 = keyboard_step(b, down).0;
        assert(b1.selected == b.selected + 1);
        assert(keyboard_step(b1, up).0 == b);
    }
}

/// In the form, Enter moves the focus to the next field and stays on the
/// last one.
pub proof fn lemma_enter_moves_focus(b: BoardView, keys: KeyInput)
    requires
        board_wf(b),
        b.fill is Some,
        !keys.escape && !keys.copy && keys.enter && !keys.shift,
    ensures
        ({
            let f = b.fill.unwrap();
            let f1 = keyboard_step(b, keys).0.fill.unwrap();
            &&& keyboard_step(b, keys).0.fill is Some
            &&& f1.values == f.values
            &&& f1.focused_index == if f.focused_index + 1 < f.variables.len() {
                f.focused_index + 1
            } else {
                f.focused_index
            }
            &&& keyboard_step(b, keys).1 == ActionView::FocusField(f1.focused_index)
        }),
{
}

/// While a form is open, a frame without Escape and without the copy
/// shortcut keeps the selection, the list, the window and the form's prompt,
/// variables and typed values; the arrows do nothing there, and only Enter
/// without Shift changes anything (the focused field).
pub proof fn lemma_form_keys_keep_form(b: BoardView, keys: KeyInput)
    requires
        board_wf(b),
        b.fill is Some,
        !keys.escape && !keys.copy,
    ensures
        ({
            let (b1, a1) = keyboard_step(b, keys);
            let f = b.fill.unwrap();
            &&& b1.selected == b.selected
            &&& b1.prompts == b.prompts
            &&& b1.visible == b.visible
            &&& b1.previous == b.previous
            &&& b1.fill matches Some(f1) && f1.prompt == f.prompt && f1.variables == f.variables
                && f1.values == f.values
            &&& !(keys.enter && !keys.shift) ==> b1 == b && a1 == ActionView::Nothing
        }),
{
}

/// Typing `value` into the field at `index` of an open form stores exactly
/// `value` there, whatever it holds (spaces included); every other field, the
/// form's prompt and variables, the selection and the list stay as they were,
/// and the preview shows the prompt filled with the new values.
pub proof fn lemma_edit_field_stores_text(b: BoardView, index: nat, value: Seq<char>)
    requires
        board_wf(b),
        b.fill matches Some(f) && index < f.values.len(),
    ensures
        ({
            let b1 = edit_field_step(b, index, value);
            let f = b.fill.unwrap();
            &&& b1.fill matches Some(f1) && f1.values.len() == f.values.len()
                && f1.values[index as int] == value
                && (forall|j: int| 0 <= j < f.values.len() && j != index ==> #[trigger] f1.values[j] == f.values[j])
                && f1.prompt == f.prompt && f1.variables == f.variables
                && f1.focused_index == f.focused_index
            &&& b1.selected == b.selected
            &&& b1.prompts == b.prompts
            &&& board_wf(b1)
            &&& preview_text_of(b1) == crate::template::rendered(
                f.prompt.content,
                Seq::new(f.variables.len(), |i: int| (f.variables[i], if i == index { value } else { f.values[i] })),
            )
        }),
{
    let f = b.fill.unwrap();
    let b1 = edit_field_step(b, index, value);
    let f1 = b1.fill.unwrap();
    assert(fill_entries(f1) =~= Seq::new(
        f.variables.len(),
        |i: int| (f.variables[i], if i == index { value } else { f.values[i] }),
    ));
}

/// A form whose fields are all empty previews its prompt unchanged: every
/// variable still shows as its placeholder, as written.
pub proof fn lemma_blank_form_previews_template(b: BoardView)
    requires
        board_wf(b),
        b.fill matches Some(f) && forall|i: int| 0 <= i < f.values.len() ==> (#[trigger] f.values[i]).len() == 0,
    ensures
        preview_text_of(b) == b.fill.unwrap().prompt.content,
{
    let f = b.fill.unwrap();
    let e = fill_entries(f);
    assert forall|i: int| 0 <= i < e.len() implies (#[trigger] e[i]).1.len() == 0 by {
        assert(e[i].1 == f.values[i]);
    }
    lemma_render_unfilled(f.prompt.content, e);
}

/// The copy shortcut copies exactly the preview, for the prompt that the
/// preview shows, unless the preview is blank; nothing else on the board
/// changes but the remembered values.
pub proof fn lemma_copy_copies_preview(b: BoardView, keys: KeyInput)
    requires
        board_wf(b),
        !keys.escape && keys.copy,
    ensures
        trimmed(preview_text_of(b)).len() == 0 ==> keyboard_step(b, keys) == (b, ActionView::Nothing),
        trimmed(preview_text_of(b)).len() > 0 ==> ({
            let (b1, a1) = keyboard_step(b, keys);
            &&& preview_prompt_of(b) is Some
            &&& a1 == ActionView::CopyPreview {
                text: preview_text_of(b),
                prompt_id: preview_prompt_of(b).unwrap().id,
            }
            &&& b1 == BoardView { previous: b1.previous, ..b }
        }),
{
}

/// After remembering entries with distinct names, each name recalls its
/// entry's value.
proof fn lemma_remember_all_recalls(
    m: Map<Seq<char>, Seq<char>>,
    entries: Seq<(Seq<char>, Seq<char>)>,
)
    requires
        forall|i: int, j: int|
            0 <= i < j < entries.len() ==> (#[trigger] entries[i]).0 != (#[trigger] entries[j]).0,
    ensures
        forall|i: int|
            0 <= i < entries.len() ==> remembered(remember_all(m, entries), (#[trigger] entries[i]).0)
                == entries[i].1,
    decreases entries.len(),
{
    if entries.len() > 0 {
        let init = entries.drop_last();
        assert forall|i: int, j: int| 0 <= i < j < init.len() implies (#[trigger] init[i]).0 != (
        #[trigger] init[j]).0 by {
            assert(init[i] == entries[i] && init[j] == entries[j]);
        }
        lemma_remember_all_recalls(m, init);
        assert forall|i: int| 0 <= i < entries.len() implies remembered(
            remember_all(m, entries),
            (#[trigger] entries[i]).0,
        ) == entries[i].1 by {
            if i < entries.len() - 1 {
                assert(init[i] == entries[i]);
                assert(entries[i].0 != entries[entries.len() - 1].0);
            }
        }
    }
}

/// Values typed into a form come back: copying the preview, going back to
/// the list with Escape and opening the same prompt again with Enter gives a
/// form with the same values, focused on its first field.
pub proof fn lemma_reopened_form_keeps_values(
    b: BoardView,
    copy: KeyInput,
    escape: KeyInput,
    enter: KeyInput,
)
    requires
        board_wf(b),
        b.fill matches Some(f) && b.prompts[b.selected as int] == f.prompt,
        trimmed(preview_text_of(b)).len() > 0,
        !copy.escape && copy.copy,
        escape.escape,
        !enter.escape && !enter.copy && enter.enter && !enter.arrow_down && !enter.arrow_up,
    ensures
        ({
            let b1 = keyboard_step(b, copy).0;
            let b2 = keyboard_step(b1, escape).0;
            let (b3, a3) = keyboard_step(b2, enter);
            &&& b3.fill == Some(FillView { focused_index: 0, ..b.fill.unwrap() })
            &&& a3 == ActionView::FocusField(0)
        }),
{
    let f = b.fill.unwrap();
    let e = fill_entries(f);
    lemma_variables_distinct(f.prompt.content);
    assert forall|i: int, j: int| 0 <= i < j < e.len() implies (#[trigger] e[i]).0 != (
    #[trigger] e[j]).0 by {
        assert(e[i].0 == f.variables[i] && e[j].0 == f.variables[j]);
    }
    lemma_remember_all_recalls(b.previous, e);
    let b1 = keyboard_step(b, copy).0;
    let b2 = keyboard_step(b1, escape).0;
    let b3 = keyboard_step(b2, enter).0;
    assert(b1.previous == remember_all(b.previous, e));
    assert(b2.previous == b1.previous);
    assert(b2.fill is None);
    let vals = f.variables.map_values(|v: Seq<char>| remembered(b2.previous, v));
    assert forall|i: int| 0 <= i < f.values.len() implies vals[i] == f.values[i] by {
        assert(e[i].0 == f.variables[i]);
    }
    assert(vals =~= f.values);
}

} // verus!
