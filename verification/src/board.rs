//! The prompt board: a list of prompts found by a search, one of them
//! selected, an optional form that fills the variables of the selected prompt,
//! and the window's visibility. Each input event moves the board to its next
//! state and names the one outside action (window, focus, clipboard) that the
//! caller performs.

use vstd::prelude::*;
use crate::prompt::{Prompt, PromptView, prompt_views};
use crate::template::{
    entry_views, extract_variables, render_template, rendered, string_views, template_variables,
};
use crate::text::{trim, trimmed};
use crate::values::{hint_text, remember_all, remembered, ValueMemory};

verus! {

/// The variables form, as text.
pub struct FillView {
    pub prompt: PromptView,
    pub variables: Seq<Seq<char>>,
    pub values: Seq<Seq<char>>,
    pub focused_index: nat,
}

/// The whole board, as text.
pub struct BoardView {
    pub prompts: Seq<PromptView>,
    pub query: Seq<char>,
    pub selected: nat,
    pub fill: Option<FillView>,
    pub previous: Map<Seq<char>, Seq<char>>,
    pub visible: bool,
    pub skip_focus_hide_once: bool,
    pub status: Option<Seq<char>>,
    pub error: Option<Seq<char>>,
}

/// What the caller does after an event.
pub enum ActionView {
    Nothing,
    ShowWindow,
    HideWindow,
    FocusSearch,
    FocusField(nat),
    CopyPreview { text: Seq<char>, prompt_id: i64 },
    CopyPrompt { prompt_id: i64, text: Seq<char> },
}

/// The keys of one frame that the board reacts to.
#[derive(Clone, Copy, Debug)]
pub struct KeyInput {
    pub escape: bool,
    pub copy: bool,
    pub enter: bool,
    pub shift: bool,
    pub arrow_down: bool,
    pub arrow_up: bool,
}

/// The form fills the variables of its prompt, one value per variable, with
/// the focus on one of them.
pub open spec fn fill_wf(f: FillView) -> bool {
    &&& f.variables == template_variables(f.prompt.content)
    &&& f.variables.len() > 0
    &&& f.values.len() == f.variables.len()
    &&& f.focused_index < f.variables.len()
}

/// The selection lies on a listed prompt (or is 0 when none is listed), and a
/// form belongs to the selected prompt.
pub open spec fn board_wf(b: BoardView) -> bool {
    &&& (b.prompts.len() == 0 ==> b.selected == 0)
    &&& (b.prompts.len() > 0 ==> b.selected < b.prompts.len())
    &&& match b.fill {
        Some(f) => {
            &&& fill_wf(f)
            &&& b.selected < b.prompts.len()
            &&& b.prompts[b.selected as int].id == f.prompt.id
        },
        None => true,
    }
}

/// The board as it opens, showing `error` if setting up failed.
pub open spec fn initial_board(error: Option<Seq<char>>) -> BoardView {
    BoardView {
        prompts: Seq::empty(),
        query: Seq::empty(),
        selected: 0,
        fill: None,
        previous: Map::empty(),
        visible: true,
        skip_focus_hide_once: false,
        status: None,
        error,
    }
}

/// The selected prompt, if the list has one.
pub open spec fn selected_prompt_of(b: BoardView) -> Option<PromptView> {
    if b.selected < b.prompts.len() {
        Some(b.prompts[b.selected as int])
    } else {
        None
    }
}

/// The prompt shown in the preview: the one being filled, else the selected one.
pub open spec fn preview_prompt_of(b: BoardView) -> Option<PromptView> {
    match b.fill {
        Some(f) => Some(f.prompt),
        None => selected_prompt_of(b),
    }
}

/// Each variable of the form with the value typed for it.
pub open spec fn fill_entries(f: FillView) -> Seq<(Seq<char>, Seq<char>)> {
    Seq::new(f.variables.len(), |i: int| (f.variables[i], f.values[i]))
}

/// The preview: the prompt being filled rendered with the typed values, else
/// the selected prompt's text, else nothing.
pub open spec fn preview_text_of(b: BoardView) -> Seq<char> {
    match b.fill {
        Some(f) => rendered(f.prompt.content, fill_entries(f)),
        None => match selected_prompt_of(b) {
            Some(p) => p.content,
            None => Seq::empty(),
        },
    }
}

/// The last index of a list of `len` items, or 0 for an empty list.
pub open spec fn last_index(len: nat) -> nat {
    if len == 0 {
        0
    } else {
        (len - 1) as nat
    }
}

/// `selected`, moved back onto a list of `len` items.
pub open spec fn clamp_selection(selected: nat, len: nat) -> nat {
    if selected <= last_index(len) {
        selected
    } else {
        last_index(len)
    }
}

/// The form is dropped when the selected prompt is no longer the one it fills.
pub open spec fn clear_fill_step(b: BoardView) -> BoardView {
    match b.fill {
        Some(f) => if selected_prompt_of(b) matches Some(p) && p.id == f.prompt.id {
            b
        } else {
            BoardView { fill: None, ..b }
        },
        None => b,
    }
}

/// A new search result: the list is replaced and the selection kept on it;
/// a failed search shows its error.
pub open spec fn refresh_step(b: BoardView, outcome: Result<Seq<PromptView>, Seq<char>>) -> BoardView {
    match outcome {
        Ok(list) => clear_fill_step(
            BoardView { prompts: list, selected: clamp_selection(b.selected, list.len()), ..b },
        ),
        Err(e) => BoardView { error: Some(e), ..b },
    }
}

/// Showing the window; the next frame without focus does not hide it again.
pub open spec fn show_step(b: BoardView) -> (BoardView, ActionView) {
    (BoardView { visible: true, skip_focus_hide_once: true, ..b }, ActionView::ShowWindow)
}

/// Hiding the window.
pub open spec fn hide_step(b: BoardView) -> (BoardView, ActionView) {
    (BoardView { visible: false, skip_focus_hide_once: false, ..b }, ActionView::HideWindow)
}

/// A frame in which the window has or lacks the focus.
pub open spec fn hide_when_unfocused_step(b: BoardView, focused: bool) -> (BoardView, ActionView) {
    if b.skip_focus_hide_once {
        (BoardView { skip_focus_hide_once: false, ..b }, ActionView::Nothing)
    } else if b.visible && !focused {
        hide_step(b)
    } else {
        (b, ActionView::Nothing)
    }
}

/// The global hotkey shows the window and never hides it.
pub open spec fn hotkey_step(b: BoardView, pressed: bool) -> (BoardView, ActionView) {
    if pressed {
        show_step(b)
    } else {
        (b, ActionView::Nothing)
    }
}

/// Leaving the form for the prompt list.
pub open spec fn return_step(b: BoardView) -> (BoardView, ActionView) {
    (BoardView { fill: None, status: None, ..b }, ActionView::FocusSearch)
}

/// Moving the focus to the next field of the form, staying on the last one.
pub open spec fn focus_next_step(b: BoardView) -> (BoardView, ActionView) {
    match b.fill {
        None => (b, ActionView::Nothing),
        Some(f) => {
            let i = if f.focused_index + 1 < f.variables.len() {
                f.focused_index + 1
            } else {
                f.focused_index
            };
            (
                BoardView { fill: Some(FillView { focused_index: i, ..f }), ..b },
                ActionView::FocusField(i),
            )
        },
    }
}

/// Opening the form for the selected prompt, each field holding the value
/// last typed for its variable; a prompt without variables is copied at once.
pub open spec fn start_filling_step(b: BoardView) -> (BoardView, ActionView) {
    match selected_prompt_of(b) {
        None => (b, ActionView::Nothing),
        Some(p) => {
            let vars = template_variables(p.content);
            if vars.len() == 0 {
                (b, ActionView::CopyPrompt { prompt_id: p.id, text: p.content })
            } else {
                let form = FillView {
                    prompt: p,
                    variables: vars,
                    values: vars.map_values(|v: Seq<char>| remembered(b.previous, v)),
                    focused_index: 0,
                };
                (BoardView { fill: Some(form), status: None, ..b }, ActionView::FocusField(0))
            }
        },
    }
}

/// Copying the preview: nothing when it is blank; otherwise the values typed
/// in the form are remembered and the preview is copied for its prompt.
pub open spec fn copy_preview_step(b: BoardView) -> (BoardView, ActionView) {
    let text = preview_text_of(b);
    if trimmed(text).len() == 0 {
        (b, ActionView::Nothing)
    } else {
        match b.fill {
            Some(f) => (
                BoardView { previous: remember_all(b.previous, fill_entries(f)), ..b },
                ActionView::CopyPreview { text, prompt_id: f.prompt.id },
            ),
            None => match selected_prompt_of(b) {
                Some(p) => (b, ActionView::CopyPreview { text, prompt_id: p.id }),
                None => (b, ActionView::Nothing),
            },
        }
    }
}

/// The keys of one frame: Escape leaves the form or hides the window; the
/// copy shortcut copies the preview; in the form Enter (without Shift) moves
/// to the next field; in the list the arrows move the selection and Enter
/// opens the selected prompt.
pub open spec fn keyboard_step(b: BoardView, keys: KeyInput) -> (BoardView, ActionView) {
    if keys.escape {
        if b.fill is Some {
            return_step(b)
        } else {
            hide_step(b)
        }
    } else if keys.copy {
        copy_preview_step(b)
    } else if b.fill is Some {
        if keys.enter && !keys.shift {
            focus_next_step(b)
        } else {
            (b, ActionView::Nothing)
        }
    } else {
        let last = last_index(b.prompts.len());
        let b1 = if keys.arrow_down {
            BoardView {
                selected: if b.selected + 1 <= last {
                    (b.selected + 1) as nat
                } else {
                    last
                },
                fill: None,
                ..b
            }
        } else {
            b
        };
        let b2 = if keys.arrow_up {
            BoardView {
                selected: if b1.selected > 0 {
                    (b1.selected - 1) as nat
                } else {
                    0
                },
                fill: None,
                ..b1
            }
        } else {
            b1
        };
        if keys.enter {
            start_filling_step(b2)
        } else {
            (b2, ActionView::Nothing)
        }
    }
}

/// Clicking a prompt of the list selects it and closes the form.
pub open spec fn select_step(b: BoardView, index: nat) -> BoardView {
    BoardView { selected: index, fill: None, ..b }
}

/// Double-clicking a prompt selects it and opens it.
pub open spec fn open_step(b: BoardView, index: nat) -> (BoardView, ActionView) {
    start_filling_step(select_step(b, index))
}

/// A field of the form that gained the focus becomes the focused field.
pub open spec fn field_focused_step(b: BoardView, index: nat) -> BoardView {
    match b.fill {
        Some(f) => if index < f.variables.len() {
            BoardView { fill: Some(FillView { focused_index: index, ..f }), ..b }
        } else {
            b
        },
        None => b,
    }
}

/// Typing in a field of the form.
pub open spec fn edit_field_step(b: BoardView, index: nat, value: Seq<char>) -> BoardView {
    match b.fill {
        Some(f) => if index < f.values.len() {
            BoardView { fill: Some(FillView { values: f.values.update(index as int, value), ..f }), ..b }
        } else {
            b
        },
        None => b,
    }
}

/// The message shown when the clipboard refused the text.
pub open spec fn clipboard_error(e: Seq<char>) -> Seq<char> {
    "剪贴板错误："@ + e
}

/// The outcome of copying a prompt that has no variables.
pub open spec fn prompt_copied_step(b: BoardView, outcome: Result<(), Seq<char>>) -> BoardView {
    match outcome {
        Ok(()) => BoardView { status: Some("已复制提示词"@), ..b },
        Err(e) => BoardView { error: Some(clipboard_error(e)), ..b },
    }
}

/// The outcome of copying the preview.
pub open spec fn preview_copied_step(b: BoardView, outcome: Result<(), Seq<char>>) -> BoardView {
    match outcome {
        Ok(()) => BoardView { status: Some("已复制预览内容"@), ..b },
        Err(e) => BoardView { error: Some(clipboard_error(e)), ..b },
    }
}


/// What the caller does after an event.
pub enum Action {
    /// Nothing to do.
    Nothing,
    /// Make the window visible, give it the focus and focus the search field.
    ShowWindow,
    /// Make the window invisible.
    HideWindow,
    /// Focus the search field.
    FocusSearch,
    /// Focus the form field of this index.
    FocusField(usize),
    /// Mark the prompt as used, copy the preview text, report the clipboard's
    /// outcome with `preview_copied`, then search again.
    CopyPreview { text: String, prompt_id: i64 },
    /// Copy the prompt's text and report the clipboard's outcome with
    /// `copy_prompt_text`; when it succeeded, mark the prompt as used and
    /// search again.
    CopyPrompt { prompt_id: i64, text: String },
}

impl View for Action {
    type V = ActionView;

    open spec fn view(&self) -> ActionView {
        match self {
            Action::Nothing => ActionView::Nothing,
            Action::ShowWindow => ActionView::ShowWindow,
            Action::HideWindow => ActionView::HideWindow,
            Action::FocusSearch => ActionView::FocusSearch,
            Action::FocusField(i) => ActionView::FocusField(*i as nat),
            Action::CopyPreview { text, prompt_id } => ActionView::CopyPreview {
                text: text@,
                prompt_id: *prompt_id,
            },
            Action::CopyPrompt { prompt_id, text } => ActionView::CopyPrompt {
                prompt_id: *prompt_id,
                text: text@,
            },
        }
    }
}

/// The text of an optional string.
pub open spec fn opt_text(o: Option<String>) -> Option<Seq<char>> {
    match o {
        Some(s) => Some(s@),
        None => None,
    }
}

/// The view of an optional prompt.
pub open spec fn opt_prompt(o: Option<&Prompt>) -> Option<PromptView> {
    match o {
        Some(p) => Some(p@),
        None => None,
    }
}

/// A search result or its error, as text.
pub open spec fn search_outcome(o: Result<Vec<Prompt>, String>) -> Result<Seq<PromptView>, Seq<char>> {
    match o {
        Ok(v) => Ok(prompt_views(v@)),
        Err(e) => Err(e@),
    }
}

/// The outcome of a clipboard write, as text.
pub open spec fn clipboard_outcome(o: Result<(), String>) -> Result<(), Seq<char>> {
    match o {
        Ok(()) => Ok(()),
        Err(e) => Err(e@),
    }
}

/// The variables form of one prompt.
pub struct FillState {
    prompt: Prompt,
    variables: Vec<String>,
    values: Vec<String>,
    focused_index: usize,
}

impl View for FillState {
    type V = FillView;

    closed spec fn view(&self) -> FillView {
        FillView {
            prompt: self.prompt@,
            variables: string_views(self.variables@),
            values: string_views(self.values@),
            focused_index: self.focused_index as nat,
        }
    }
}

impl FillState {
    /// The prompt being filled.
    pub fn prompt(&self) -> (p: &Prompt)
        ensures
            p@ == self@.prompt,
    {
        &self.prompt
    }

    /// The variables of the prompt, in order.
    pub fn variables(&self) -> (v: &Vec<String>)
        ensures
            string_views(v@) == self@.variables,
    {
        &self.variables
    }

    /// The value typed for each variable.
    pub fn values(&self) -> (v: &Vec<String>)
        ensures
            string_views(v@) == self@.values,
    {
        &self.values
    }

    /// The index of the focused field.
    pub fn focused_index(&self) -> (i: usize)
        ensures
            i == self@.focused_index,
    {
        self.focused_index
    }

    /// Each variable with the value typed for it.
    fn entries(&self) -> (e: Vec<(String, String)>)
        requires
            self@.values.len() == self@.variables.len(),
        ensures
            entry_views(e@) == fill_entries(self@),
    {
        let ghost all = fill_entries(self@);
        let mut e: Vec<(String, String)> = Vec::new();
        let mut i: usize = 0;
        while i < self.variables.len()
            invariant
                i <= self.variables.len(),
                self.values.len() == self.variables.len(),
                all == fill_entries(self@),
                entry_views(e@) == all.take(i as int),
            decreases self.variables.len() - i,
        {
            assert(string_views(self.variables@)[i as int] == self.variables@[i as int]@);
            assert(string_views(self.values@)[i as int] == self.values@[i as int]@);
            let ghost before = e@;
            e.push((self.variables[i].clone(), self.values[i].clone()));
            assert(entry_views(e@) =~= entry_views(before).push(all[i as int]));
            assert(all.take(i + 1) =~= all.take(i as int).push(all[i as int]));
            i += 1;
        }
        assert(all.take(self.variables.len() as int) =~= all);
        e
    }
}

/// The state of the prompt board.
pub struct BoardState {
    prompts: Vec<Prompt>,
    query: String,
    selected: usize,
    fill: Option<FillState>,
    previous_values: ValueMemory,
    visible: bool,
    skip_focus_hide_once: bool,
    status: Option<String>,
    error: Option<String>,
}

impl View for BoardState {
    type V = BoardView;

    closed spec fn view(&self) -> BoardView {
        BoardView {
            prompts: prompt_views(self.prompts@),
            query: self.query@,
            selected: self.selected as nat,
            fill: match self.fill {
                Some(f) => Some(f@),
                None => None,
            },
            previous: self.previous_values@,
            visible: self.visible,
            skip_focus_hide_once: self.skip_focus_hide_once,
            status: opt_text(self.status),
            error: opt_text(self.error),
        }
    }
}

impl BoardState {
    /// The board keeps its invariant.
    pub closed spec fn wf(&self) -> bool {
        &&& board_wf(self@)
        &&& self.previous_values.wf()
    }

    /// A board that keeps its invariant has a view that keeps `board_wf`, so
    /// the laws stated over views apply to it.
    pub proof fn lemma_view_wf(&self)
        requires
            self.wf(),
        ensures
            board_wf(self@),
    {
    }

    /// The board as it opens: visible, with an empty list and no form,
    /// showing `error` when setting up failed.
    pub fn new(error: Option<String>) -> (b: BoardState)
        ensures
            b.wf(),
            b@ == initial_board(opt_text(error)),
    {
        let b = BoardState {
            prompts: Vec::new(),
            query: String::new(),
            selected: 0,
            fill: None,
            previous_values: ValueMemory::new(),
            visible: true,
            skip_focus_hide_once: false,
            status: None,
            error,
        };
        assert(b@.prompts =~= Seq::<PromptView>::empty());
        b
    }

    /// The prompts of the last search.
    pub fn prompts(&self) -> (p: &Vec<Prompt>)
        ensures
            prompt_views(p@) == self@.prompts,
    {
        &self.prompts
    }

    /// The search text.
    pub fn query(&self) -> (q: &String)
        ensures
            q@ == self@.query,
    {
        &self.query
    }

    /// The index of the selected prompt.
    pub fn selected(&self) -> (i: usize)
        ensures
            i == self@.selected,
    {
        self.selected
    }

    /// The variables form, when one is open.
    pub fn fill(&self) -> (f: Option<&FillState>)
        ensures
            match f {
                Some(s) => self@.fill == Some(s@),
                None => self@.fill is None,
            },
    {
        match &self.fill {
            Some(f) => Some(f),
            None => None,
        }
    }

    /// Whether the window is meant to be visible.
    pub fn visible(&self) -> (v: bool)
        ensures
            v == self@.visible,
    {
        self.visible
    }

    /// The last status message.
    pub fn status(&self) -> (s: Option<&String>)
        ensures
            match s {
                Some(t) => self@.status == Some(t@),
                None => self@.status is None,
            },
    {
        match &self.status {
            Some(t) => Some(t),
            None => None,
        }
    }

    /// The last error message.
    pub fn error(&self) -> (e: Option<&String>)
        ensures
            match e {
                Some(t) => self@.error == Some(t@),
                None => self@.error is None,
            },
    {
        match &self.error {
            Some(t) => Some(t),
            None => None,
        }
    }

    /// The value last typed for the variable `name`, or the empty string.
    pub fn previous_value(&self, name: &str) -> (v: String)
        requires
            self.wf(),
        ensures
            v@ == remembered(self@.previous, name@),
    {
        self.previous_values.get(name)
    }

    /// The hint shown in the empty form field of the variable `name`.
    pub fn field_hint(&self, name: &str) -> (h: String)
        requires
            self.wf(),
        ensures
            h@ == hint_text(remembered(self@.previous, name@)),
    {
        self.previous_values.hint(name)
    }

    /// Drops the form when the selected prompt is no longer the one it fills.
    fn clear_fill_if_prompt_changed(&mut self)
        requires
            board_wf(BoardView { fill: None, ..old(self)@ }),
            old(self)@.fill matches Some(f) ==> fill_wf(f),
            old(self).previous_values.wf(),
        ensures
            final(self).wf(),
            final(self)@ == clear_fill_step(old(self)@),
    {
        let keep = match &self.fill {
            Some(f) => self.selected < self.prompts.len() && self.prompts[self.selected].id
                == f.prompt.id,
            None => true,
        };
        if !keep {
            self.fill = None;
        }
    }

    /// Takes in a new search result: the list is replaced, the selection kept
    /// on it and a stale form dropped; a failed search shows its error.
    pub fn refresh_prompts(&mut self, outcome: Result<Vec<Prompt>, String>)
        requires
            old(self).wf(),
        ensures
            final(self).wf(),
            final(self)@ == refresh_step(old(self)@, search_outcome(outcome)),
    {
        match outcome {
            Ok(prompts) => {
                let len = prompts.len();
                self.prompts = prompts;
                let last = if len == 0 {
                    0
                } else {
                    len - 1
                };
                if self.selected > last {
                    self.selected = last;
                }
                self.clear_fill_if_prompt_changed();
            },
            Err(e) => {
                self.error = Some(e);
            },
        }
    }

    /// The selected prompt, if the list has one.
    pub fn selected_prompt(&self) -> (p: Option<&Prompt>)
        ensures
            opt_prompt(p) == selected_prompt_of(self@),
    {
        if self.selected < self.prompts.len() {
            Some(&self.prompts[self.selected])
        } else {
            None
        }
    }

    /// The prompt shown in the preview.
    pub fn preview_prompt(&self) -> (p: Option<&Prompt>)
        ensures
            opt_prompt(p) == preview_prompt_of(self@),
    {
        match &self.fill {
            Some(f) => Some(&f.prompt),
            None => self.selected_prompt(),
        }
    }

    /// The preview text: the form's prompt rendered with the typed values,
    /// else the selected prompt's text, else the empty string.
    pub fn preview_text(&self) -> (t: String)
        requires
            self.wf(),
        ensures
            t@ == preview_text_of(self@),
    {
        match &self.fill {
            Some(f) => {
                let entries = f.entries();
                render_template(f.prompt.content.as_str(), entries.as_slice())
            },
            None => match self.selected_prompt() {
                Some(p) => p.content.clone(),
                None => String::new(),
            },
        }
    }

    /// Shows the window.
    pub fn show_window(&mut self) -> (act: Action)
        requires
            old(self).wf(),
        ensures
            final(self).wf(),
            (final(self)@, act@) == show_step(old(self)@),
    {
        self.visible = true;
        self.skip_focus_hide_once = true;
        Action::ShowWindow
    }

    /// Hides the window.
    pub fn hide_window(&mut self) -> (act: Action)
        requires
            old(self).wf(),
        ensures
            final(self).wf(),
            (final(self)@, act@) == hide_step(old(self)@),
    {
        self.visible = false;
        self.skip_focus_hide_once = false;
        Action::HideWindow
    }

    /// A frame in which the window has (`focused`) or lacks the focus: an
    /// unfocused visible window hides, except in the frame right after it was
    /// shown.
    pub fn hide_when_unfocused(&mut self, focused: bool) -> (act: Action)
        requires
            old(self).wf(),
        ensures
            final(self).wf(),
            (final(self)@, act@) == hide_when_unfocused_step(old(self)@, focused),
    {
        if self.skip_focus_hide_once {
            self.skip_focus_hide_once = false;
            return Action::Nothing;
        }
        if self.visible && !focused {
            return self.hide_window();
        }
        Action::Nothing
    }

    /// A frame in which the global hotkey was (`pressed`) or was not pressed.
    pub fn handle_global_hotkey(&mut self, pressed: bool) -> (act: Action)
        requires
            old(self).wf(),
        ensures
            final(self).wf(),
            (final(self)@, act@) == hotkey_step(old(self)@, pressed),
    {
        if pressed {
            self.show_window()
        } else {
            Action::Nothing
        }
    }

    /// Leaves the form for the prompt list.
    pub fn return_to_selection(&mut self) -> (act: Action)
        requires
            old(self).wf(),
        ensures
            final(self).wf(),
            (final(self)@, act@) == return_step(old(self)@),
    {
        self.fill = None;
        self.status = None;
        Action::FocusSearch
    }

    /// Moves the focus to the next field of the form.
    pub fn focus_next_field(&mut self) -> (act: Action)
        requires
            old(self).wf(),
        ensures
            final(self).wf(),
            (final(self)@, act@) == focus_next_step(old(self)@),
    {
        proof {
            if self.fill is Some {
                assert(self.fill.unwrap().focused_index < self.fill.unwrap().variables.len());
            }
        }
        match &mut self.fill {
            Some(f) => {
                if f.focused_index + 1 < f.variables.len() {
                    f.focused_index = f.focused_index + 1;
                }
                Action::FocusField(f.focused_index)
            },
            None => Action::Nothing,
        }
    }

    /// Opens the form for the selected prompt, each field holding the value
    /// last typed for its variable; a prompt without variables is copied.
    pub fn start_filling(&mut self) -> (act: Action)
        requires
            old(self).wf(),
        ensures
            final(self).wf(),
            (final(self)@, act@) == start_filling_step(old(self)@),
    {
        let prompt = match self.selected_prompt() {
            Some(p) => p.duplicate(),
            None => {
                return Action::Nothing;
            },
        };
        let variables = extract_variables(prompt.content.as_str());
        if variables.len() == 0 {
            return Action::CopyPrompt { prompt_id: prompt.id, text: prompt.content };
        }
        let ghost vars = string_views(variables@);
        let ghost prev = self@.previous;
        let mut values: Vec<String> = Vec::new();
        let mut i: usize = 0;
        while i < variables.len()
            invariant
                i <= variables.len(),
                vars == string_views(variables@),
                self.previous_values.wf(),
                self.previous_values@ == prev,
                string_views(values@) == vars.take(i as int).map_values(
                    |v: Seq<char>| remembered(prev, v),
                ),
            decreases variables.len() - i,
        {
            let value = self.previous_values.get(variables[i].as_str());
            let ghost before = values@;
            values.push(value);
            assert(vars[i as int] == variables@[i as int]@);
            assert(string_views(values@) =~= string_views(before).push(remembered(prev, vars[i as int])));
            assert(vars.take(i + 1).map_values(|v: Seq<char>| remembered(prev, v)) =~= vars.take(
                i as int,
            ).map_values(|v: Seq<char>| remembered(prev, v)).push(remembered(prev, vars[i as int])));
            i += 1;
        }
        assert(vars.take(variables.len() as int) =~= vars);
        self.fill = Some(FillState { prompt, variables, values, focused_index: 0 });
        self.status = None;
        Action::FocusField(0)
    }

    /// Copies the preview: nothing when it is blank; otherwise the values
    /// typed in the form are remembered and the preview goes to the clipboard.
    pub fn copy_preview(&mut self) -> (act: Action)
        requires
            old(self).wf(),
        ensures
            final(self).wf(),
            (final(self)@, act@) == copy_preview_step(old(self)@),
    {
        let text = self.preview_text();
        let trimmed_text = trim(text.as_str());
        if trimmed_text.as_str().is_empty() {
            return Action::Nothing;
        }
        match &self.fill {
            Some(f) => {
                let entries = f.entries();
                let prompt_id = f.prompt.id;
                self.previous_values.remember_entries(entries.as_slice());
                Action::CopyPreview { text, prompt_id }
            },
            None => match self.selected_prompt() {
                Some(p) => Action::CopyPreview { text, prompt_id: p.id },
                None => Action::Nothing,
            },
        }
    }

    /// Reacts to the keys of one frame.
    pub fn handle_keyboard(&mut self, keys: KeyInput) -> (act: Action)
        requires
            old(self).wf(),
        ensures
            final(self).wf(),
            (final(self)@, act@) == keyboard_step(old(self)@, keys),
    {
        if keys.escape {
            if self.fill.is_some() {
                return self.return_to_selection();
            }
            return self.hide_window();
        }
        if keys.copy {
            return self.copy_preview();
        }
        if self.fill.is_some() {
            if keys.enter && !keys.shift {
                return self.focus_next_field();
            }
            return Action::Nothing;
        }
        let len = self.prompts.len();
        let last = if len == 0 {
            0
        } else {
            len - 1
        };
        if keys.arrow_down {
            self.selected = if self.selected + 1 <= last {
                self.selected + 1
            } else {
                last
            };
            self.fill = None;
        }
        if keys.arrow_up {
            self.selected = if self.selected > 0 {
                self.selected - 1
            } else {
                0
            };
            self.fill = None;
        }
        if keys.enter {
            return self.start_filling();
        }
        Action::Nothing
    }

    /// A click on the prompt at `index` of the list selects it.
    pub fn select_prompt(&mut self, index: usize)
        requires
            old(self).wf(),
            index < old(self)@.prompts.len(),
        ensures
            final(self).wf(),
            final(self)@ == select_step(old(self)@, index as nat),
    {
        self.selected = index;
        self.fill = None;
    }

    /// A double click on the prompt at `index` selects and opens it.
    pub fn open_prompt(&mut self, index: usize) -> (act: Action)
        requires
            old(self).wf(),
            index < old(self)@.prompts.len(),
        ensures
            final(self).wf(),
            (final(self)@, act@) == open_step(old(self)@, index as nat),
    {
        self.select_prompt(index);
        self.start_filling()
    }

    /// The form field at `index` gained the focus.
    pub fn field_focused(&mut self, index: usize)
        requires
            old(self).wf(),
        ensures
            final(self).wf(),
            final(self)@ == field_focused_step(old(self)@, index as nat),
    {
        if let Some(f) = &mut self.fill {
            if index < f.variables.len() {
                f.focused_index = index;
            }
        }
    }

    /// The form field at `index` now holds `value`.
    pub fn edit_field(&mut self, index: usize, value: String)
        requires
            old(self).wf(),
        ensures
            final(self).wf(),
            final(self)@ == edit_field_step(old(self)@, index as nat, value@),
    {
        if let Some(f) = &mut self.fill {
            if index < f.values.len() {
                let ghost before = f.values@;
                f.values.set(index, value);
                assert(string_views(f.values@) =~= string_views(before).update(
                    index as int,
                    value@,
                ));
            }
        }
    }

    /// Whether the field at `index` should ask for the focus: it is the
    /// focused field of the form but does not hold the focus.
    pub fn field_wants_focus(&self, index: usize, has_focus: bool) -> (b: bool)
        ensures
            b == ((self@.fill matches Some(f)) && self@.fill.unwrap().focused_index == index
                && !has_focus),
    {
        match &self.fill {
            Some(f) => f.focused_index == index && !has_focus,
            None => false,
        }
    }

    /// The search text is now `query`.
    pub fn set_query(&mut self, query: String)
        requires
            old(self).wf(),
        ensures
            final(self).wf(),
            final(self)@ == (BoardView { query: query@, ..old(self)@ }),
    {
        self.query = query;
    }

    /// The clipboard's outcome for a prompt copied without a form.
    pub fn copy_prompt_text(&mut self, outcome: Result<(), String>)
        requires
            old(self).wf(),
        ensures
            final(self).wf(),
            final(self)@ == prompt_copied_step(old(self)@, clipboard_outcome(outcome)),
    {
        match outcome {
            Ok(()) => {
                self.status = Some(String::from_str("已复制提示词"));
            },
            Err(e) => {
                let mut message = String::from_str("剪贴板错误：");
                message.append(e.as_str());
                self.error = Some(message);
            },
        }
    }

    /// The clipboard's outcome for a copied preview.
    pub fn preview_copied(&mut self, outcome: Result<(), String>)
        requires
            old(self).wf(),
        ensures
            final(self).wf(),
            final(self)@ == preview_copied_step(old(self)@, clipboard_outcome(outcome)),
    {
        match outcome {
            Ok(()) => {
                self.status = Some(String::from_str("已复制预览内容"));
            },
            Err(e) => {
                let mut message = String::from_str("剪贴板错误：");
                message.append(e.as_str());
                self.error = Some(message);
            },
        }
    }

    /// Shows an error reported by the prompt store.
    pub fn report_error(&mut self, message: String)
        requires
            old(self).wf(),
        ensures
            final(self).wf(),
            final(self)@ == (BoardView { error: Some(message@), ..old(self)@ }),
    {
        self.error = Some(message);
    }
}

} // verus!
