use term_chat_ui::screen::{
    modifier_diff_ops, diff_buffers, AttrOp, DrawCommand, ScreenBuffer, ScreenCell,
};
use term_chat_ui::style::{TextStyle, MOD_BOLD, MOD_DIM, MOD_ITALIC};
use ratatui::style::Color;

#[test]
fn diff_of_equal_buffers_is_empty() {
    let a = ScreenBuffer::empty(10, 3);
    let b = ScreenBuffer::empty(10, 3);
    let cmds = diff_buffers(&a, &b);
    assert!(cmds.is_empty());
}

#[test]
fn diff_reports_changed_cells_only() {
    let a = ScreenBuffer::empty(10, 3);
    let mut b = ScreenBuffer::empty(10, 3);
    b.set_string(
        2,
        1,
        &"hi".chars().collect(),
        TextStyle { fg: Some(Color::Red), bg: None, mods: 0 },
    );
    let cmds = diff_buffers(&a, &b);
    assert_eq!(cmds.len(), 2);
    match &cmds[0] {
        DrawCommand::Put { x, y, cell } => {
            assert_eq!((*x, *y), (2, 1));
            assert_eq!(cell.symbol, 'h');
            assert_eq!(cell.fg, Color::Red);
        }
        _ => panic!("expected Put"),
    }
}

#[test]
fn diff_is_deterministic_for_fixed_frames() {
    // Fixed inputs give byte-identical update streams on repeated runs.
    let a = ScreenBuffer::empty(20, 2);
    let mut b = ScreenBuffer::empty(20, 2);
    b.set_string(
        0,
        0,
        &"steady".chars().collect(),
        TextStyle { fg: None, bg: Some(Color::Blue), mods: MOD_BOLD },
    );
    let first = diff_buffers(&a, &b);
    let second = diff_buffers(&a, &b);
    assert_eq!(first.len(), second.len());
    for (l, r) in first.iter().zip(second.iter()) {
        match (l, r) {
            (
                DrawCommand::Put { x: x1, y: y1, cell: c1 },
                DrawCommand::Put { x: x2, y: y2, cell: c2 },
            ) => {
                assert_eq!((x1, y1), (x2, y2));
                assert_eq!(c1.symbol, c2.symbol);
                assert_eq!(c1.fg, c2.fg);
                assert_eq!(c1.bg, c2.bg);
                assert_eq!(c1.mods, c2.mods);
            }
            _ => panic!("command streams diverged"),
        }
    }
}

#[test]
fn bold_off_restores_dim() {
    let ops = modifier_diff_ops(MOD_BOLD | MOD_DIM, MOD_DIM);
    assert_eq!(ops, vec![AttrOp::NormalIntensity, AttrOp::Dim]);
}

#[test]
fn added_bits_emit_setters() {
    let ops = modifier_diff_ops(0, MOD_BOLD | MOD_ITALIC);
    assert_eq!(ops, vec![AttrOp::Bold, AttrOp::Italic]);
}

#[test]
fn wide_glyph_marks_continuation_cell() {
    let mut b = ScreenBuffer::empty(10, 1);
    b.set_string(
        0,
        0,
        &"\u{4e16}".chars().collect(),
        TextStyle { fg: None, bg: None, mods: 0 },
    );
    assert!(!b.cell_at(0, 0).skip);
    assert!(b.cell_at(1, 0).skip);
}
