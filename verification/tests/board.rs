use prompt_board::board::{Action, BoardState, KeyInput};
use prompt_board::prompt::Prompt;

fn prompt(id: i64, title: &str, content: &str) -> Prompt {
    Prompt { id, title: title.to_owned(), content: content.to_owned(), tags: "tag".to_owned() }
}

fn keys() -> KeyInput {
    KeyInput { escape: false, copy: false, enter: false, shift: false, arrow_down: false, arrow_up: false }
}

fn loaded() -> BoardState {
    let mut b = BoardState::new(None);
    b.refresh_prompts(Ok(vec![
        prompt(1, "mail", "Dear [who], about [what]."),
        prompt(2, "plain", "no variables here"),
        prompt(3, "third", "[x]"),
    ]));
    b
}

#[test]
fn new_board_is_visible_and_empty() {
    let b = BoardState::new(Some("boom".to_owned()));
    assert!(b.visible());
    assert!(b.prompts().is_empty());
    assert_eq!(b.selected(), 0);
    assert!(b.fill().is_none());
    assert_eq!(b.error().map(|e| e.as_str()), Some("boom"));
    assert_eq!(b.preview_text(), "");
    assert!(b.preview_prompt().is_none());
}

#[test]
fn arrows_move_within_the_list() {
    let mut b = loaded();
    assert!(matches!(b.handle_keyboard(KeyInput { arrow_up: true, ..keys() }), Action::Nothing));
    assert_eq!(b.selected(), 0);
    b.handle_keyboard(KeyInput { arrow_down: true, ..keys() });
    assert_eq!(b.selected(), 1);
    b.handle_keyboard(KeyInput { arrow_down: true, ..keys() });
    b.handle_keyboard(KeyInput { arrow_down: true, ..keys() });
    assert_eq!(b.selected(), 2);
    b.handle_keyboard(KeyInput { arrow_up: true, ..keys() });
    assert_eq!(b.selected(), 1);
    assert_eq!(b.preview_text(), "no variables here");
}

#[test]
fn enter_opens_form_with_variables() {
    let mut b = loaded();
    let act = b.handle_keyboard(KeyInput { enter: true, ..keys() });
    assert!(matches!(act, Action::FocusField(0)));
    let f = b.fill().unwrap();
    assert_eq!(f.variables(), &vec!["who".to_owned(), "what".to_owned()]);
    assert_eq!(f.values(), &vec![String::new(), String::new()]);
    assert_eq!(f.focused_index(), 0);
    assert_eq!(f.prompt().id, 1);
    assert_eq!(b.preview_text(), "Dear [who], about [what].");
}

#[test]
fn typing_updates_the_preview_and_blank_fields_keep_placeholders() {
    let mut b = loaded();
    b.start_filling();
    b.edit_field(0, "Ann".to_owned());
    assert_eq!(b.preview_text(), "Dear Ann, about [what].");
    b.edit_field(1, "tea".to_owned());
    assert_eq!(b.preview_text(), "Dear Ann, about tea.");
    b.edit_field(1, String::new());
    assert_eq!(b.preview_text(), "Dear Ann, about [what].");
}

#[test]
fn enter_in_form_moves_focus_and_stops_at_last() {
    let mut b = loaded();
    b.start_filling();
    assert!(matches!(b.handle_keyboard(KeyInput { enter: true, ..keys() }), Action::FocusField(1)));
    assert!(matches!(b.handle_keyboard(KeyInput { enter: true, ..keys() }), Action::FocusField(1)));
    assert!(matches!(
        b.handle_keyboard(KeyInput { enter: true, shift: true, ..keys() }),
        Action::Nothing
    ));
    assert_eq!(b.fill().unwrap().focused_index(), 1);
    b.field_focused(0);
    assert_eq!(b.fill().unwrap().focused_index(), 0);
    b.field_focused(9);
    assert_eq!(b.fill().unwrap().focused_index(), 0);
    assert!(b.field_wants_focus(0, false));
    assert!(!b.field_wants_focus(0, true));
    assert!(!b.field_wants_focus(1, false));
}

#[test]
fn copy_remembers_values_for_next_time() {
    let mut b = loaded();
    b.start_filling();
    b.edit_field(0, "Ann".to_owned());
    b.edit_field(1, "tea".to_owned());
    match b.handle_keyboard(KeyInput { copy: true, ..keys() }) {
        Action::CopyPreview { text, prompt_id } => {
            assert_eq!(text, "Dear Ann, about tea.");
            assert_eq!(prompt_id, 1);
        }
        _ => panic!("expected a copy"),
    }
    assert_eq!(b.previous_value("who"), "Ann");
    assert!(matches!(b.handle_keyboard(KeyInput { escape: true, ..keys() }), Action::FocusSearch));
    assert!(b.fill().is_none());
    assert!(b.visible());
    b.handle_keyboard(KeyInput { enter: true, ..keys() });
    assert_eq!(b.fill().unwrap().values(), &vec!["Ann".to_owned(), "tea".to_owned()]);
    assert_eq!(b.previous_value("unknown"), "");
}

#[test]
fn prompt_without_variables_is_copied_directly() {
    let mut b = loaded();
    b.handle_keyboard(KeyInput { arrow_down: true, ..keys() });
    match b.handle_keyboard(KeyInput { enter: true, ..keys() }) {
        Action::CopyPrompt { prompt_id, text } => {
            assert_eq!(prompt_id, 2);
            assert_eq!(text, "no variables here");
        }
        _ => panic!("expected a prompt copy"),
    }
    assert!(b.fill().is_none());
    b.copy_prompt_text(Ok(()));
    assert_eq!(b.status().map(|s| s.as_str()), Some("已复制提示词"));
    b.copy_prompt_text(Err("boom".to_owned()));
    assert_eq!(b.error().map(|s| s.as_str()), Some("剪贴板错误：boom"));
}

#[test]
fn preview_copy_outcomes() {
    let mut b = loaded();
    b.preview_copied(Ok(()));
    assert_eq!(b.status().map(|s| s.as_str()), Some("已复制预览内容"));
    b.preview_copied(Err("no display".to_owned()));
    assert_eq!(b.error().map(|s| s.as_str()), Some("剪贴板错误：no display"));
    b.report_error("disk full".to_owned());
    assert_eq!(b.error().map(|s| s.as_str()), Some("disk full"));
}

#[test]
fn copy_in_list_copies_selected_prompt() {
    let mut b = loaded();
    match b.copy_preview() {
        Action::CopyPreview { text, prompt_id } => {
            assert_eq!(text, "Dear [who], about [what].");
            assert_eq!(prompt_id, 1);
        }
        _ => panic!("expected a copy"),
    }
}

#[test]
fn blank_preview_is_not_copied() {
    let mut b = BoardState::new(None);
    assert!(matches!(b.copy_preview(), Action::Nothing));
    b.refresh_prompts(Ok(vec![prompt(5, "blank", "  \n ")]));
    assert!(matches!(b.copy_preview(), Action::Nothing));
}

#[test]
fn escape_in_list_hides_window() {
    let mut b = loaded();
    assert!(matches!(b.handle_keyboard(KeyInput { escape: true, ..keys() }), Action::HideWindow));
    assert!(!b.visible());
    assert!(matches!(b.handle_global_hotkey(true), Action::ShowWindow));
    assert!(b.visible());
    assert!(matches!(b.handle_global_hotkey(true), Action::ShowWindow));
    assert!(b.visible());
    assert!(matches!(b.handle_global_hotkey(false), Action::Nothing));
}

#[test]
fn shown_window_survives_one_unfocused_frame() {
    let mut b = loaded();
    b.show_window();
    assert!(matches!(b.hide_when_unfocused(false), Action::Nothing));
    assert!(b.visible());
    assert!(matches!(b.hide_when_unfocused(true), Action::Nothing));
    assert!(b.visible());
    assert!(matches!(b.hide_when_unfocused(false), Action::HideWindow));
    assert!(!b.visible());
    assert!(matches!(b.hide_when_unfocused(false), Action::Nothing));
    assert!(matches!(b.hide_window(), Action::HideWindow));
}

#[test]
fn refresh_clamps_selection_and_drops_stale_form() {
    let mut b = loaded();
    b.select_prompt(2);
    b.start_filling();
    assert!(b.fill().is_some());
    b.refresh_prompts(Ok(vec![prompt(3, "third", "[x]"), prompt(9, "nine", "[y]")]));
    assert_eq!(b.selected(), 1);
    assert!(b.fill().is_none());
    b.select_prompt(0);
    b.start_filling();
    b.refresh_prompts(Ok(vec![prompt(3, "third again", "[x] more")]));
    assert_eq!(b.selected(), 0);
    assert!(b.fill().is_some());
    b.refresh_prompts(Ok(vec![]));
    assert_eq!(b.selected(), 0);
    assert!(b.fill().is_none());
    assert_eq!(b.preview_text(), "");
}

#[test]
fn refresh_error_is_shown() {
    let mut b = loaded();
    b.refresh_prompts(Err("database locked".to_owned()));
    assert_eq!(b.error().map(|s| s.as_str()), Some("database locked"));
    assert_eq!(b.prompts().len(), 3);
}

#[test]
fn double_click_opens_prompt() {
    let mut b = loaded();
    assert!(matches!(b.open_prompt(2), Action::FocusField(0)));
    assert_eq!(b.selected(), 2);
    assert_eq!(b.fill().unwrap().variables(), &vec!["x".to_owned()]);
    assert_eq!(b.preview_prompt().unwrap().title, "third");
    b.select_prompt(0);
    assert!(b.fill().is_none());
    assert_eq!(b.selected_prompt().unwrap().id, 1);
}

#[test]
fn return_to_selection_clears_form_and_status() {
    let mut b = loaded();
    b.start_filling();
    b.preview_copied(Ok(()));
    assert!(matches!(b.return_to_selection(), Action::FocusSearch));
    assert!(b.fill().is_none());
    assert!(b.status().is_none());
    assert!(matches!(b.focus_next_field(), Action::Nothing));
}

#[test]
fn query_is_kept() {
    let mut b = loaded();
    b.set_query("mail".to_owned());
    assert_eq!(b.query(), "mail");
}

#[test]
fn blank_form_previews_placeholders_as_written() {
    let mut b = BoardState::new(None);
    b.refresh_prompts(Ok(vec![prompt(4, "mail", "To [收件人|同事] on [主题].")]));
    b.start_filling();
    assert_eq!(b.fill().unwrap().variables(), &vec!["收件人".to_owned(), "主题".to_owned()]);
    assert_eq!(b.preview_text(), "To [收件人|同事] on [主题].");
    b.edit_field(0, "老王".to_owned());
    assert_eq!(b.preview_text(), "To 老王 on [主题].");
}

#[test]
fn field_hints_offer_the_last_value() {
    let mut b = loaded();
    b.start_filling();
    assert_eq!(b.field_hint("who"), "输入自定义内容");
    b.edit_field(0, "Ann".to_owned());
    b.copy_preview();
    assert_eq!(b.field_hint("who"), "默认：Ann");
    assert_eq!(b.field_hint("what"), "输入自定义内容");
}
