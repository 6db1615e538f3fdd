use vec_draw::lines::split_lines;
use vec_draw::text_box::{key_command, CompositionEndOutcome, KeyCommand, KeyOutcome, TextBox, TextBoxManager};

fn text_box_with(text: &str, cursor: usize) -> TextBox {
    let mut tb = TextBox::new();
    tb.text = text.to_string();
    tb.cursor_position = cursor;
    tb
}

#[test]
fn new_text_box_is_empty() {
    let tb = TextBox::new();
    assert_eq!(tb.text, "");
    assert_eq!(tb.cursor_position, 0);
    assert_eq!(tb.color(), "#000000");
    assert_eq!(tb.background_color(), "lightgray");
    assert_eq!(tb.get_selected_control_point(), -1);
    assert!(!tb.is_selected());
}

#[test]
fn insert_at_cursor_types_and_moves() {
    let mut tb = text_box_with("held", 2);
    tb.insert_at_cursor("LL");
    assert_eq!(tb.text, "heLLld");
    assert_eq!(tb.cursor_position, 4);
}

#[test]
fn insert_past_end_appends() {
    let mut tb = text_box_with("ab", 5);
    tb.insert_at_cursor("c");
    assert_eq!(tb.text, "abc");
    assert_eq!(tb.cursor_position, 6);
}

#[test]
fn backspace_deletes_before_cursor() {
    let mut tb = text_box_with("abc", 2);
    tb.delete_before_cursor();
    assert_eq!(tb.text, "ac");
    assert_eq!(tb.cursor_position, 1);
    let mut tb = text_box_with("abc", 0);
    tb.delete_before_cursor();
    assert_eq!(tb.text, "abc");
    assert_eq!(tb.cursor_position, 0);
}

#[test]
fn backspace_past_end_deletes_last() {
    let mut tb = text_box_with("abc", 7);
    tb.delete_before_cursor();
    assert_eq!(tb.text, "ab");
    assert_eq!(tb.cursor_position, 6);
}

#[test]
fn delete_at_cursor_cases() {
    let mut tb = text_box_with("abc", 1);
    tb.delete_at_cursor();
    assert_eq!(tb.text, "ac");
    assert_eq!(tb.cursor_position, 1);
    let mut tb = text_box_with("x", 0);
    tb.delete_at_cursor();
    assert_eq!(tb.text, "x");
    let mut tb = text_box_with("abc", 3);
    tb.delete_at_cursor();
    assert_eq!(tb.text, "abc");
}

#[test]
fn type_then_backspace_restores() {
    let mut tb = text_box_with("héllo", 3);
    tb.insert_at_cursor("é");
    tb.delete_before_cursor();
    assert_eq!(tb.text, "héllo");
    assert_eq!(tb.cursor_position, 3);
}

#[test]
fn left_right_moves() {
    let mut tb = text_box_with("ab", 1);
    tb.move_cursor_left();
    assert_eq!(tb.cursor_position, 0);
    tb.move_cursor_left();
    assert_eq!(tb.cursor_position, 0);
    tb.move_cursor_right();
    tb.move_cursor_right();
    tb.move_cursor_right();
    assert_eq!(tb.cursor_position, 2);
}

#[test]
fn byte_index_counts_utf8() {
    let tb = text_box_with("a한b", 2);
    assert_eq!(tb.get_byte_index_at_cursor(), 4);
    let tb = text_box_with("a한b", 9);
    assert_eq!(tb.get_byte_index_at_cursor(), 5);
    assert_eq!(tb.get_char_index_at_cursor(), 9);
}

#[test]
fn row_and_column() {
    let tb = text_box_with("ab\ncde\nf", 5);
    assert_eq!(tb.get_row_index_at_cursor(), 1);
    assert_eq!(tb.get_column_index_at_cursor(), 2);
    let tb = text_box_with("ab\n", 3);
    assert_eq!(tb.get_row_index_at_cursor(), 1);
    assert_eq!(tb.get_column_index_at_cursor(), 0);
}

#[test]
fn up_down_keep_column() {
    let mut tb = text_box_with("abcd\nxy\nlong line", 4);
    tb.move_cursor_down();
    assert_eq!(tb.cursor_position, 7);
    tb.move_cursor_down();
    assert_eq!(tb.cursor_position, 10);
    tb.move_cursor_down();
    assert_eq!(tb.cursor_position, 10);
    tb.move_cursor_up();
    assert_eq!(tb.cursor_position, 7);
    tb.move_cursor_up();
    assert_eq!(tb.cursor_position, 2);
    tb.move_cursor_up();
    assert_eq!(tb.cursor_position, 2);
}

#[test]
fn home_and_end() {
    let mut tb = text_box_with("abc\ndefg", 6);
    tb.move_cursor_to_line_start();
    assert_eq!(tb.cursor_position, 4);
    tb.move_cursor_to_line_end();
    assert_eq!(tb.cursor_position, 8);
}

#[test]
fn crlf_lines_drop_carriage_return() {
    let lines = split_lines("a\r\nbc\r");
    assert_eq!(lines, vec!["a".to_string(), "bc\r".to_string()]);
    let mut tb = text_box_with("a\r\nbc", 5);
    tb.move_cursor_to_line_start();
    // the line before counts one character for "a" and one for the line end
    assert_eq!(tb.cursor_position, 2);
}

#[test]
fn split_lines_cases() {
    assert_eq!(split_lines(""), vec!["".to_string()]);
    assert_eq!(split_lines("a\nb"), vec!["a".to_string(), "b".to_string()]);
    assert_eq!(split_lines("a\n"), vec!["a".to_string(), "".to_string()]);
}

#[test]
fn key_commands() {
    assert_eq!(key_command("Backspace"), KeyCommand::Backspace);
    assert_eq!(key_command("Escape"), KeyCommand::Escape);
    assert_eq!(key_command("x"), KeyCommand::Other);
}

#[test]
fn manager_routes_keys() {
    let mut m: TextBoxManager<u32> = TextBoxManager::new();
    let mut tb = text_box_with("ab", 2);
    assert_eq!(m.on_keydown("Backspace", &mut tb), KeyOutcome::Ignored);
    assert_eq!(tb.text, "ab");
    m.attach(7);
    assert!(m.is_active());
    assert_eq!(m.on_keydown("Enter", &mut tb), KeyOutcome::Redraw { command: KeyCommand::Enter });
    assert_eq!(tb.text, "ab\n");
    assert_eq!(tb.cursor_position, 3);
    assert_eq!(m.on_keydown("Escape", &mut tb), KeyOutcome::Finish);
    m.on_composition_start();
    assert_eq!(m.on_keydown("Backspace", &mut tb), KeyOutcome::Ignored);
    assert!(m.toggle_cursor());
    assert!(!m.cursor_visible());
    m.finish_input();
    assert!(!m.is_active());
    assert!(!m.toggle_cursor());
}

#[test]
fn cursor_blinks_back() {
    let mut m: TextBoxManager<u32> = TextBoxManager::new();
    m.attach(1);
    assert!(m.cursor_visible());
    assert!(m.toggle_cursor());
    assert!(!m.cursor_visible());
    assert!(m.toggle_cursor());
    assert!(m.cursor_visible());
    assert!(m.is_active());
}

#[test]
fn composition_cycle() {
    let mut m: TextBoxManager<u32> = TextBoxManager::new();
    let mut tb = text_box_with("ac", 1);
    m.attach(1);
    m.on_composition_start();
    assert!(m.is_composing());
    assert!(m.on_composition_update("b", &mut tb));
    assert_eq!(tb.composition_text, "b");
    assert_eq!(tb.composed_text(), "abc");
    assert_eq!(tb.text, "ac");
    assert!(!m.on_input(Some("x"), &mut tb));
    assert_eq!(m.on_composition_end(Some("한"), &mut tb), CompositionEndOutcome::Inserted);
    assert!(!m.is_composing());
    assert_eq!(tb.text, "a한c");
    assert_eq!(tb.cursor_position, 2);
    assert_eq!(tb.composition_text, "");
    assert!(m.on_input(Some("!"), &mut tb));
    assert_eq!(tb.text, "a한!c");
    assert_eq!(m.on_composition_end(None, &mut tb), CompositionEndOutcome::NoData);
    m.detach();
    assert_eq!(m.on_composition_end(Some("z"), &mut tb), CompositionEndOutcome::Inactive);
    assert_eq!(tb.text, "a한!c");
}

#[test]
fn type_past_end_then_backspace() {
    let mut tb = text_box_with("ab", 5);
    tb.insert_at_cursor("x");
    assert_eq!(tb.text, "abx");
    assert_eq!(tb.cursor_position, 6);
    tb.delete_before_cursor();
    assert_eq!(tb.text, "ab");
    assert_eq!(tb.cursor_position, 5);
}

#[test]
fn enter_past_end_starts_new_line() {
    let mut m: TextBoxManager<u32> = TextBoxManager::new();
    m.attach(0);
    let mut tb = text_box_with("a\nb", 9);
    assert_eq!(tb.get_row_index_at_cursor(), 1);
    assert_eq!(m.on_keydown("Enter", &mut tb), KeyOutcome::Redraw { command: KeyCommand::Enter });
    assert_eq!(tb.text, "a\nb\n");
    assert_eq!(tb.get_row_index_at_cursor(), 2);
    assert_eq!(tb.get_column_index_at_cursor(), 0);
}

#[test]
fn type_text_then_backspaces() {
    let mut tb = text_box_with("héllo", 2);
    tb.insert_at_cursor("ab\nç");
    assert_eq!(tb.text, "héab\nçllo");
    assert_eq!(tb.cursor_position, 6);
    for _ in 0..4 {
        tb.delete_before_cursor();
    }
    assert_eq!(tb.text, "héllo");
    assert_eq!(tb.cursor_position, 2);
    let mut at_start = text_box_with("abc", 0);
    at_start.delete_before_cursor();
    assert_eq!(at_start.text, "abc");
    assert_eq!(at_start.cursor_position, 0);
}

#[test]
fn composing_holds_input_even_at_max_cursor() {
    let mut m: TextBoxManager<u32> = TextBoxManager::new();
    m.attach(1);
    m.on_composition_start();
    let mut tb = text_box_with("ab", usize::MAX);
    assert!(!m.on_input(Some("xyz"), &mut tb));
    assert_eq!(m.on_keydown("Backspace", &mut tb), KeyOutcome::Ignored);
    assert_eq!(tb.text, "ab");
    assert_eq!(tb.cursor_position, usize::MAX);
    let mut detached: TextBoxManager<u32> = TextBoxManager::new();
    assert_eq!(detached.on_composition_end(Some("xyz"), &mut tb), CompositionEndOutcome::Inactive);
    assert_eq!(tb.text, "ab");
}

#[test]
fn split_lines_join_back() {
    for text in ["", "a", "a\nb", "a\n", "\n\nx\n", "한\n글"] {
        assert_eq!(split_lines(text).join("\n"), text);
    }
}
