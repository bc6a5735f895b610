use term_chat_ui::tool_render::{
    generate_diff_lines,
    generate_search_replace_diff_lines,
    generate_write_file_diff_lines,
    DiffLine,
};
use term_chat_ui::message::{ToolUseBlock, ParameterValue};
use term_chat_ui::composer::Composer;
use term_chat_ui::textarea::TextArea;

#[test]
fn test_edit_diff_lines() {
    let lines = generate_diff_lines("hello\nworld\n", "hello\nearth\n");
    assert_eq!(lines.len(), 3);
    match &lines[0] {
        DiffLine::Context { line_num, text } => {
            assert_eq!(*line_num, 1);
            assert_eq!(text, "hello");
        }
        _ => panic!("expected Context"),
    }
    match &lines[1] {
        DiffLine::Delete { text, .. } => assert_eq!(text, "world"),
        _ => panic!("expected Delete"),
    }
    match &lines[2] {
        DiffLine::Insert { text, .. } => assert_eq!(text, "earth"),
        _ => panic!("expected Insert"),
    }
}

#[test]
fn test_search_replace_diff_lines() {
    let diff = "<<<<<<< SEARCH\nold line 1\nold line 2\n=======\nnew line 1\n>>>>>>> REPLACE";
    let lines = generate_search_replace_diff_lines(diff);
    assert_eq!(lines.len(), 3);
    match &lines[0] {
        DiffLine::Delete { text, .. } => assert_eq!(text, "old line 1"),
        _ => panic!("expected Delete"),
    }
    match &lines[1] {
        DiffLine::Delete { text, .. } => assert_eq!(text, "old line 2"),
        _ => panic!("expected Delete"),
    }
    match &lines[2] {
        DiffLine::Insert { text, .. } => assert_eq!(text, "new line 1"),
        _ => panic!("expected Insert"),
    }
}

#[test]
fn test_search_replace_multiple_blocks() {
    let diff =
        "<<<<<<< SEARCH\na\n=======\nb\n>>>>>>> REPLACE\n<<<<<<< SEARCH\nc\n=======\nd\n>>>>>>> REPLACE";
    let lines = generate_search_replace_diff_lines(diff);
    assert_eq!(lines.len(), 5);
    assert!(matches!(&lines[2], DiffLine::HunkSeparator));
}

#[test]
fn test_write_file_diff_lines() {
    let lines = generate_write_file_diff_lines("fn main() {\n    line();\n}");
    assert_eq!(lines.len(), 3);
    for (i, line) in lines.iter().enumerate() {
        match line {
            DiffLine::Insert { line_num, .. } => assert_eq!(*line_num, i + 1),
            _ => panic!("expected Insert"),
        }
    }
}

#[test]
fn test_tool_parameters_append_and_display() {
    let mut t = ToolUseBlock::new("edit".to_string(), "id1".to_string());
    t.add_or_update_parameter("old_text".to_string(), "abc".to_string());
    t.add_or_update_parameter("old_text".to_string(), "def".to_string());
    t.add_or_update_parameter("new_text".to_string(), "xyz".to_string());
    assert_eq!(t.parameters.len(), 2);
    assert_eq!(t.parameters[0].value.value, "abcdef");
    assert_eq!(t.parameters[1].value.value, "xyz");

    let long = "x".repeat(150);
    let p = ParameterValue::new(long.clone());
    let shown = p.get_display_value();
    assert_eq!(shown.chars().count(), 100);
    assert!(shown.ends_with("..."));
}

#[test]
fn test_input_height_calculation() {
    let composer = Composer::new(5);
    let ta = TextArea::new();
    // One textarea row plus padding and footer.
    assert_eq!(composer.calculate_input_height(&ta, 80), 4);
}

#[test]
fn test_input_height_constraints() {
    let composer = Composer::new(5);
    let mut ta = TextArea::new();
    ta.insert_str("a\nb\nc\nd\ne\nf\ng\nh\ni\nj");
    // Ten wrapped rows clamp to the maximum plus the three fixed rows.
    assert_eq!(composer.calculate_input_height(&ta, 80), 8);
}
