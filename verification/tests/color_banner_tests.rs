use term_chat_ui::terminal_color::{is_light, composer_bg, tool_content_bg};
use term_chat_ui::welcome_banner::{letter_bitmap, render_banner, welcome_banner_lines};
use ratatui::style::Color;

#[test]
fn test_is_light() {
    assert!(is_light((255, 255, 255)));
    assert!(is_light((200, 200, 200)));
    assert!(!is_light((0, 0, 0)));
    assert!(!is_light((30, 30, 30)));
    assert!(!is_light((40, 40, 40)));
}

#[test]
fn test_composer_bg_fallback_and_dark() {
    assert_eq!(composer_bg(None), Color::Rgb(40, 40, 40));
    // Blending white at 12% over black gives 30 per channel.
    assert_eq!(composer_bg(Some((0, 0, 0))), Color::Rgb(30, 30, 30));
}

#[test]
fn test_tool_content_bg_fallback_and_light() {
    assert_eq!(tool_content_bg(None), Color::Rgb(35, 35, 35));
    // Blending black at 3% over white gives 247 per channel.
    assert_eq!(tool_content_bg(Some((255, 255, 255))), Color::Rgb(247, 247, 247));
}

#[test]
fn test_banner_rows_consistent_width() {
    let rows = render_banner();
    let widths: Vec<usize> = rows.iter().map(|r| r.chars().count()).collect();
    assert!(
        widths.windows(2).all(|w| w[0] == w[1]),
        "Banner rows have inconsistent char widths: {:?}",
        widths
    );
}

#[test]
fn test_letter_bitmaps_consistent() {
    for ch in ['c', 'o', 'd', 'e'] {
        let bitmap = letter_bitmap(ch);
        assert_eq!(bitmap.len(), 5, "Letter '{ch}' should have 5 rows");
        let widths: Vec<usize> = bitmap.iter().map(|r| r.chars().count()).collect();
        assert!(
            widths.windows(2).all(|w| w[0] == w[1]),
            "Letter '{ch}' has inconsistent row widths: {:?}",
            widths
        );
    }
}

#[test]
fn test_banner_structure() {
    let lines = welcome_banner_lines("~/projects/test", false, None);
    assert_eq!(lines.len(), 10);
}

#[test]
fn test_banner_temporary_project() {
    let lines = welcome_banner_lines("~/projects/test", true, None);
    let text: String = lines[lines.len() - 2].plain_text().iter().collect();
    assert!(text.contains("(temporary)"));
}

#[test]
fn test_banner_configured_project() {
    let lines = welcome_banner_lines("~/projects/test", false, None);
    let text: String = lines[lines.len() - 2].plain_text().iter().collect();
    assert!(!text.contains("(temporary)"));
    assert!(text.contains("~/projects/test"));
}
