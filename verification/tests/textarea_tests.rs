use term_chat_ui::textarea::TextArea;

#[test]
fn test_basic_insert_and_text() {
    let mut ta = TextArea::new();
    ta.insert_str("hello");
    assert_eq!(ta.text(), "hello");
    assert_eq!(ta.cursor(), 5);
}

#[test]
fn test_clear() {
    let mut ta = TextArea::new();
    ta.insert_str("hello");
    ta.clear();
    assert_eq!(ta.text(), "");
    assert_eq!(ta.cursor(), 0);
}

#[test]
fn test_delete_backward() {
    let mut ta = TextArea::new();
    ta.insert_str("hello");
    ta.delete_backward(1);
    assert_eq!(ta.text(), "hell");
    assert_eq!(ta.cursor(), 4);
}

#[test]
fn test_delete_forward() {
    let mut ta = TextArea::new();
    ta.insert_str("hello");
    ta.set_cursor(0);
    ta.delete_forward(1);
    assert_eq!(ta.text(), "ello");
    assert_eq!(ta.cursor(), 0);
}

#[test]
fn test_newline_insert() {
    let mut ta = TextArea::new();
    ta.insert_str("line1");
    ta.insert_str("\n");
    ta.insert_str("line2");
    assert_eq!(ta.text(), "line1\nline2");
}

#[test]
fn test_desired_height() {
    let mut ta = TextArea::new();
    ta.insert_str("short");
    assert_eq!(ta.desired_height(80), 1);

    ta.clear();
    ta.insert_str("line1\nline2\nline3");
    assert_eq!(ta.desired_height(80), 3);
}

#[test]
fn test_empty_desired_height() {
    let ta = TextArea::new();
    assert_eq!(ta.desired_height(80), 1);
}

#[test]
fn test_kill_and_yank() {
    let mut ta = TextArea::new();
    ta.insert_str("hello world");
    ta.kill_to_end_of_line();
    assert_eq!(ta.text(), "hello world");

    ta.set_cursor(5);
    ta.kill_to_end_of_line();
    assert_eq!(ta.text(), "hello");

    ta.set_cursor(5);
    ta.yank();
    assert_eq!(ta.text(), "hello world");
}

#[test]
fn test_insert_element() {
    let mut ta = TextArea::new();
    ta.insert_str("before ");
    ta.insert_element("[Pasted 100 chars]");
    ta.insert_str(" after");
    assert_eq!(ta.text(), "before [Pasted 100 chars] after");
    assert_eq!(ta.cursor(), ta.text().chars().count());
    assert_eq!(ta.elements.len(), 1);
    assert_eq!(ta.elements[0].start, 7);
    assert_eq!(ta.elements[0].end, 25);
}

#[test]
fn test_element_cursor_skips() {
    let mut ta = TextArea::new();
    ta.insert_str("a");
    ta.insert_element("[IMG]");
    ta.insert_str("b");
    assert_eq!(ta.text(), "a[IMG]b");
    assert_eq!(ta.cursor(), 7);

    ta.move_cursor_left();
    ta.move_cursor_left();
    assert_eq!(ta.cursor(), 1);
    ta.move_cursor_left();
    assert_eq!(ta.cursor(), 0);
}

#[test]
fn test_delete_backward_removes_element() {
    let mut ta = TextArea::new();
    ta.insert_str("a");
    ta.insert_element("[IMG]");
    ta.insert_str("b");
    ta.set_cursor(6);
    ta.delete_backward(1);
    assert_eq!(ta.text(), "ab");
    assert_eq!(ta.elements.len(), 0);
}

#[test]
fn test_clear_removes_elements() {
    let mut ta = TextArea::new();
    ta.insert_element("[Pasted 50 chars]");
    ta.insert_element("[Image 1]");
    assert_eq!(ta.elements.len(), 2);
    ta.clear();
    assert_eq!(ta.elements.len(), 0);
    assert_eq!(ta.text(), "");
}

#[test]
fn test_word_motion_over_separators() {
    let mut ta = TextArea::new();
    ta.insert_str("foo bar.baz");
    let start = ta.beginning_of_previous_word();
    assert_eq!(start, 8);
    ta.set_cursor(0);
    let end = ta.end_of_next_word();
    assert_eq!(end, 3);
}

#[test]
fn test_cursor_up_down_logical_lines() {
    let mut ta = TextArea::new();
    ta.insert_str("abc\ndefgh");
    ta.move_cursor_up();
    assert_eq!(ta.cursor(), 3);
    ta.move_cursor_down();
    assert_eq!(ta.cursor(), 9);
}
