//! Welcome banner: the product word drawn as a large block-character bitmap,
//! a subtitle, and the project path, as styled scrollback lines.

use vstd::prelude::*;
use crate::style::{StyledLine, StyledSpan, TextStyle, MOD_DIM};
use crate::terminal_color::spec_is_light;
use crate::text::{chars_of_str, string_of_chars, append_chars};

verus! {

/// Columns of one letter's bitmap rows.
pub open spec fn spec_letter_cols(ch: char) -> int {
    if ch == 'c' {
        5
    } else {
        6
    }
}

/// 5-row bitmap font for the letters of the banner word. `#` is a filled
/// pixel, space is empty; every row of one letter has the same width.
pub fn letter_bitmap(ch: char) -> (r: Vec<String>)
    ensures
        r@.len() == 5,
        forall|i: int| 0 <= i < 5 ==> (#[trigger] r@[i])@.len() == spec_letter_cols(ch),
{
    proof {
        reveal_strlit(" ####");
        reveal_strlit("#    ");
        reveal_strlit(" #### ");
        reveal_strlit("#    #");
        reveal_strlit("##### ");
        reveal_strlit("######");
        reveal_strlit("#     ");
        reveal_strlit("####  ");
        reveal_strlit("      ");
    }
    let mut r: Vec<String> = Vec::new();
    if ch == 'c' {
        r.push(String::from_str(" ####"));
        r.push(String::from_str("#    "));
        r.push(String::from_str("#    "));
        r.push(String::from_str("#    "));
        r.push(String::from_str(" ####"));
    } else if ch == 'o' {
        r.push(String::from_str(" #### "));
        r.push(String::from_str("#    #"));
        r.push(String::from_str("#    #"));
        r.push(String::from_str("#    #"));
        r.push(String::from_str(" #### "));
    } else if ch == 'd' {
        r.push(String::from_str("##### "));
        r.push(String::from_str("#    #"));
        r.push(String::from_str("#    #"));
        r.push(String::from_str("#    #"));
        r.push(String::from_str("##### "));
    } else if ch == 'e' {
        r.push(String::from_str("######"));
        r.push(String::from_str("#     "));
        r.push(String::from_str("####  "));
        r.push(String::from_str("#     "));
        r.push(String::from_str("######"));
    } else {
        r.push(String::from_str("      "));
        r.push(String::from_str("      "));
        r.push(String::from_str("      "));
        r.push(String::from_str("      "));
        r.push(String::from_str("      "));
    }
    r
}

/// The block character that one bitmap pixel expands to on a given row:
/// lower half-blocks on the top row, upper half-blocks on the bottom row,
/// full blocks between.
pub open spec fn spec_pixel_char(row: usize) -> char {
    if row == 0 {
        '\u{2584}'
    } else if row == 4 {
        '\u{2580}'
    } else {
        '\u{2588}'
    }
}

/// Appends one bitmap row to `out`, each pixel expanded to two characters.
fn expand_row_into(out: &mut Vec<char>, bitmap_row: &String, row: usize)
    ensures
        final(out)@.len() == old(out)@.len() + 2 * bitmap_row@.len(),
{
    let cs = chars_of_str(bitmap_row.as_str());
    let mut j: usize = 0;
    while j < cs.len()
        invariant
            j <= cs@.len(),
            cs@.len() == bitmap_row@.len(),
            out@.len() == old(out)@.len() + 2 * j,
        decreases cs@.len() - j,
    {
        let px = if cs[j] == '#' {
            if row == 0 {
                '\u{2584}'
            } else if row == 4 {
                '\u{2580}'
            } else {
                '\u{2588}'
            }
        } else {
            ' '
        };
        out.push(px);
        out.push(px);
        j += 1;
    }
}

/// Renders the banner word as five rows of block characters. Every row has
/// the same width: four letters at double width with two-column spacing.
pub fn render_banner() -> (r: Vec<String>)
    ensures
        r@.len() == 5,
        forall|i: int| 0 <= i < 5 ==> (#[trigger] r@[i])@.len() == 52,
{
    let bc = letter_bitmap('c');
    let bo = letter_bitmap('o');
    let bd = letter_bitmap('d');
    let be = letter_bitmap('e');
    let mut rows: Vec<String> = Vec::new();
    let mut row: usize = 0;
    while row < 5
        invariant
            row <= 5,
            bc@.len() == 5,
            bo@.len() == 5,
            bd@.len() == 5,
            be@.len() == 5,
            forall|i: int| 0 <= i < 5 ==> (#[trigger] bc@[i])@.len() == 5,
            forall|i: int| 0 <= i < 5 ==> (#[trigger] bo@[i])@.len() == 6,
            forall|i: int| 0 <= i < 5 ==> (#[trigger] bd@[i])@.len() == 6,
            forall|i: int| 0 <= i < 5 ==> (#[trigger] be@[i])@.len() == 6,
            rows@.len() == row,
            forall|i: int| 0 <= i < row ==> (#[trigger] rows@[i])@.len() == 52,
        decreases 5 - row,
    {
        let mut out: Vec<char> = Vec::new();
        expand_row_into(&mut out, &bc[row], row);
        out.push(' ');
        out.push(' ');
        expand_row_into(&mut out, &bo[row], row);
        out.push(' ');
        out.push(' ');
        expand_row_into(&mut out, &bd[row], row);
        out.push(' ');
        out.push(' ');
        expand_row_into(&mut out, &be[row], row);
        let s = string_of_chars(&out);
        rows.push(s);
        row += 1;
    }
    rows
}

/// The banner accent color, adapted to the detected terminal background.
pub open spec fn spec_banner_accent_color(bg: Option<(u8, u8, u8)>) -> ratatui::style::Color {
    match bg {
        Some(b) => if spec_is_light(b) {
            ratatui::style::Color::Rgb(60, 60, 160)
        } else {
            ratatui::style::Color::Rgb(100, 140, 255)
        },
        None => ratatui::style::Color::Rgb(100, 140, 255),
    }
}

pub fn banner_accent_color(bg: Option<(u8, u8, u8)>) -> (r: ratatui::style::Color)
    ensures
        r == spec_banner_accent_color(bg),
{
    match bg {
        Some(b) => if crate::terminal_color::is_light(b) {
            ratatui::style::Color::Rgb(60, 60, 160)
        } else {
            ratatui::style::Color::Rgb(100, 140, 255)
        },
        None => ratatui::style::Color::Rgb(100, 140, 255),
    }
}

/// The dimmer accent used for the subtitle.
pub open spec fn spec_banner_dim_color(bg: Option<(u8, u8, u8)>) -> ratatui::style::Color {
    match bg {
        Some(b) => if spec_is_light(b) {
            ratatui::style::Color::Rgb(100, 100, 180)
        } else {
            ratatui::style::Color::Rgb(70, 100, 180)
        },
        None => ratatui::style::Color::Rgb(70, 100, 180),
    }
}

pub fn banner_dim_color(bg: Option<(u8, u8, u8)>) -> (r: ratatui::style::Color)
    ensures
        r == spec_banner_dim_color(bg),
{
    match bg {
        Some(b) => if crate::terminal_color::is_light(b) {
            ratatui::style::Color::Rgb(100, 100, 180)
        } else {
            ratatui::style::Color::Rgb(70, 100, 180)
        },
        None => ratatui::style::Color::Rgb(70, 100, 180),
    }
}

/// Builds the styled welcome banner: one leading blank line, five banner
/// rows, the subtitle, a blank line, the project path (with a temporary
/// marker when the project is not configured), and one trailing blank line.
pub fn welcome_banner_lines(
    project_path: &str,
    is_temporary: bool,
    bg: Option<(u8, u8, u8)>,
) -> (r: Vec<StyledLine>)
    ensures
        r@.len() == 10,
        r@[0]@.spans.len() == 0,
        r@[9]@.spans.len() == 0,
        // Five banner rows of uniform width, indented three columns.
        forall|i: int|
            1 <= i <= 5 ==> {
                &&& (#[trigger] r@[i]@.spans).len() == 2
                &&& r@[i]@.spans[0].content == "   "@
                &&& r@[i]@.spans[1].content.len() == 52
            },
        // The subtitle row.
        r@[6]@.spans.len() == 2,
        r@[6]@.spans[0].content == "   "@,
        r@[6]@.spans[1].content == "a s s i s t a n t"@,
        r@[7]@.spans.len() == 0,
        r@[8]@.spans.len() == (if is_temporary { 3int } else { 2int }),
        r@[8]@.spans[0].content == "   "@,
        r@[8]@.spans[1].content == project_path@,
        is_temporary ==> r@[8]@.spans[2].content == " (temporary)"@,
{
    proof {
        reveal_strlit("   ");
        reveal_strlit(" (temporary)");
        reveal_strlit("a s s i s t a n t");
    }
    let accent = banner_accent_color(bg);
    let dim_accent = banner_dim_color(bg);
    let banner_style = TextStyle::plain().with_fg(accent);
    let dim_style = TextStyle::plain().with_fg(ratatui::style::Color::DarkGray).with_mods(MOD_DIM);

    let mut lines: Vec<StyledLine> = Vec::new();
    lines.push(StyledLine::empty());

    let rows = render_banner();
    let mut i: usize = 0;
    while i < rows.len()
        invariant
            rows@.len() == 5,
            forall|k: int| 0 <= k < 5 ==> (#[trigger] rows@[k])@.len() == 52,
            i <= 5,
            lines@.len() == 1 + i,
            lines@[0]@.spans.len() == 0,
            forall|k: int|
                1 <= k <= i ==> {
                    &&& (#[trigger] lines@[k]@.spans).len() == 2
                    &&& lines@[k]@.spans[0].content == "   "@
                    &&& lines@[k]@.spans[1].content.len() == 52
                },
        decreases rows@.len() - i,
    {
        let mut spans: Vec<StyledSpan> = Vec::new();
        spans.push(StyledSpan::raw(String::from_str("   ")));
        spans.push(StyledSpan::new(rows[i].clone(), banner_style));
        lines.push(StyledLine::from_spans(spans));
        i += 1;
    }

    let mut sub_spans: Vec<StyledSpan> = Vec::new();
    sub_spans.push(StyledSpan::raw(String::from_str("   ")));
    sub_spans.push(
        StyledSpan::new(
            String::from_str("a s s i s t a n t"),
            TextStyle::plain().with_fg(dim_accent),
        ),
    );
    lines.push(StyledLine::from_spans(sub_spans));

    lines.push(StyledLine::empty());

    let mut path_spans: Vec<StyledSpan> = Vec::new();
    path_spans.push(StyledSpan::raw(String::from_str("   ")));
    path_spans.push(StyledSpan::new(String::from_str(project_path), dim_style));
    if is_temporary {
        path_spans.push(StyledSpan::new(String::from_str(" (temporary)"), dim_style));
    }
    let path_line = StyledLine::from_spans(path_spans);
    lines.push(path_line);

    lines.push(StyledLine::empty());
    lines
}

} // verus!
