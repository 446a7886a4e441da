use gof_ui::decimal_string;
use gof_ui::is_word_boundary;
use gof_ui::AppState;
use gof_ui::BufferContents;
use gof_ui::Direction;

#[test]
fn from_text_counts_lines() {
    assert_eq!(BufferContents::new().len(), 1);
    assert_eq!(BufferContents::from_text("a\nb\nc").len(), 3);
    assert_eq!(BufferContents::from_text("a\n").len(), 2);
}

#[test]
fn crlf_counts_as_one_break() {
    assert_eq!(BufferContents::from_text("a\r\nb").len(), 2);
    assert_eq!(BufferContents::from_text("a\rb").len(), 2);
}

#[test]
fn char_idx_combines_line_start_and_column() {
    let mut bc = BufferContents::from_text("ab\ncd");
    bc.line = 1;
    bc.col = 1;
    assert_eq!(bc.char_idx(), 4);
}

#[test]
fn insert_and_delete_restore_text() {
    let mut bc = BufferContents::from_text("ac");
    bc.col = 1;
    bc.insert_character('b');
    assert_eq!(bc.join_lines(), "abc");

    bc.delete_key_handler();
    assert_eq!(bc.join_lines(), "ac");

    bc.insert_str("xy");
    assert_eq!(bc.join_lines(), "axyc");

    bc.col = 2;
    bc.backspace_key_handler();
    assert_eq!(bc.join_lines(), "ayc");
}

#[test]
fn rendered_lines_follow_scroll_and_height() {
    let mut bc = BufferContents::from_text("1\n2\n3\n4\n5");
    bc.scroll_offset = 1;
    assert_eq!(bc.get_rendered_lines(1), "2\n3\n");

    bc.scroll_offset = 3;
    assert_eq!(bc.get_rendered_lines(5), "4\n5");
}

#[test]
fn move_cursor_right_wraps_to_next_line() {
    let mut bc = BufferContents::from_text("ab\ncd");
    bc.move_cursor(Direction::Right, 5);
    assert_eq!(bc.line, 1);
    assert_eq!(bc.col, 1);
}

#[test]
fn move_cursor_clamps_at_edges() {
    let mut bc = BufferContents::from_text("ab\ncd");
    bc.move_cursor(Direction::Up, 3);
    assert_eq!(bc.line, 0);
    assert_eq!(bc.col, 0);

    bc.move_cursor(Direction::Down, 1);
    assert_eq!(bc.line, 1);
}

#[test]
fn scroll_moves_view_and_cursor_together() {
    let mut bc = BufferContents::from_text("a\nb\nc");
    bc.scroll(-5);
    assert_eq!(bc.scroll_offset, 0);
    assert_eq!(bc.line, 0);

    bc.scroll(1);
    assert_eq!(bc.scroll_offset, 1);
    assert_eq!(bc.line, 1);

    bc.scroll(1);
    assert_eq!(bc.scroll_offset, 2);
    assert_eq!(bc.line, 2);
}

#[test]
fn top_and_bottom_jumps() {
    let mut bc = BufferContents::from_text("a\nb\nc\nd");
    bc.move_to_bottom(2);
    assert_eq!(bc.line, 3);
    assert_eq!(bc.scroll_offset, 2);

    assert_eq!(bc.drawn_cursor(), (0, 1));

    bc.move_to_top();
    assert_eq!((bc.line, bc.col, bc.scroll_offset), (0, 0, 0));
}

#[test]
fn line_start_and_end_skip_whitespace() {
    let mut bc = BufferContents::from_text("  hi \nrest");
    bc.move_cursor_line_start();
    assert_eq!(bc.col, 2);

    bc.move_cursor_line_end();
    assert_eq!(bc.col, 4);
}

#[test]
fn current_line_includes_its_break() {
    let mut bc = BufferContents::from_text("ab\ncd");
    assert_eq!(bc.current_line_len(), 3);
    assert_eq!(bc.current_line_str(), "ab\n");

    bc.line = 1;
    assert_eq!(bc.current_line_len(), 2);
    assert_eq!(bc.current_line_str(), "cd");
}

#[test]
fn direction_from_line_delta() {
    assert_eq!(Direction::from_num_lines(3), Direction::Down);
    assert_eq!(Direction::from_num_lines(0), Direction::Up);
    assert_eq!(Direction::from_num_lines(-2), Direction::Up);
}

#[test]
fn decimal_labels() {
    assert_eq!(decimal_string(0), "0");
    assert_eq!(decimal_string(9), "9");
    assert_eq!(decimal_string(10), "10");
    assert_eq!(decimal_string(107), "107");
    assert_eq!(decimal_string(65535), "65535");
}

#[test]
fn word_boundaries() {
    assert!(!is_word_boundary(&'a'));
    assert!(!is_word_boundary(&'Z'));
    assert!(!is_word_boundary(&'0'));
    assert!(!is_word_boundary(&'_'));
    assert!(!is_word_boundary(&'-'));
    assert!(is_word_boundary(&' '));
    assert!(is_word_boundary(&'.'));
}

#[test]
fn fresh_app_state_is_cleared() {
    let state = AppState::new();
    assert_eq!(state.sidebar_toggle, false);
    assert_eq!(state.cursor_position, (0, 0));
    assert!(state.open_files.is_empty());
    assert_eq!(state.selected_file, 0);
}
