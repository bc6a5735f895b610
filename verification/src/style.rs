//! Styled-text model shared by the whole crate: colors, modifier bits, styles,
//! spans and lines, together with the spec-level views the contracts speak of.

use vstd::prelude::*;
use crate::text::spec_is_space;

verus! {

/// Declares ratatui's `Color` so verified code can hold, build and match it.
#[verifier::external_type_specification]
pub struct ExColor(ratatui::style::Color);

/// Bold modifier bit, as ratatui's `Modifier` encodes it.
pub const MOD_BOLD: u16 = 0x1;

/// Dim modifier bit.
pub const MOD_DIM: u16 = 0x2;

/// Italic modifier bit.
pub const MOD_ITALIC: u16 = 0x4;

/// Underlined modifier bit.
pub const MOD_UNDERLINED: u16 = 0x8;

/// Slow-blink modifier bit.
pub const MOD_SLOW_BLINK: u16 = 0x10;

/// Rapid-blink modifier bit.
pub const MOD_RAPID_BLINK: u16 = 0x20;

/// Reversed modifier bit.
pub const MOD_REVERSED: u16 = 0x40;

/// Hidden modifier bit.
pub const MOD_HIDDEN: u16 = 0x80;

/// Crossed-out modifier bit.
pub const MOD_CROSSED_OUT: u16 = 0x100;

/// A text style: optional foreground and background colors plus a set of
/// modifier bits (the same bit layout as ratatui's `Modifier`).
#[derive(Clone, Copy)]
pub struct TextStyle {
    pub fg: Option<ratatui::style::Color>,
    pub bg: Option<ratatui::style::Color>,
    pub mods: u16,
}

impl TextStyle {
    /// The default style: no colors, no modifiers.
    pub open spec fn spec_plain() -> TextStyle {
        TextStyle { fg: None, bg: None, mods: 0 }
    }

    pub fn plain() -> (r: TextStyle)
        ensures
            r == TextStyle::spec_plain(),
    {
        TextStyle { fg: None, bg: None, mods: 0 }
    }

    pub fn with_fg(self, c: ratatui::style::Color) -> (r: TextStyle)
        ensures
            r == (TextStyle { fg: Some(c), ..self }),
    {
        TextStyle { fg: Some(c), bg: self.bg, mods: self.mods }
    }

    pub fn with_bg(self, c: ratatui::style::Color) -> (r: TextStyle)
        ensures
            r == (TextStyle { bg: Some(c), ..self }),
    {
        TextStyle { fg: self.fg, bg: Some(c), mods: self.mods }
    }

    pub fn with_mods(self, bits: u16) -> (r: TextStyle)
        ensures
            r == (TextStyle { mods: self.mods | bits, ..self }),
    {
        TextStyle { fg: self.fg, bg: self.bg, mods: self.mods | bits }
    }

    /// `self` patched by `over`: `over`'s colors win where set, and modifier
    /// bits accumulate, as ratatui's `Style::patch` combines styles.
    pub open spec fn spec_patch(self, over: TextStyle) -> TextStyle {
        TextStyle {
            fg: if over.fg is Some {
                over.fg
            } else {
                self.fg
            },
            bg: if over.bg is Some {
                over.bg
            } else {
                self.bg
            },
            mods: self.mods | over.mods,
        }
    }

    pub fn patch(self, over: TextStyle) -> (r: TextStyle)
        ensures
            r == self.spec_patch(over),
    {
        TextStyle {
            fg: match over.fg {
                Some(c) => Some(c),
                None => self.fg,
            },
            bg: match over.bg {
                Some(c) => Some(c),
                None => self.bg,
            },
            mods: self.mods | over.mods,
        }
    }
}

/// Structural equality on colors.
pub fn color_eq(a: ratatui::style::Color, b: ratatui::style::Color) -> (r: bool)
    ensures
        r == (a == b),
{
    match (a, b) {
        (ratatui::style::Color::Reset, ratatui::style::Color::Reset) => true,
        (ratatui::style::Color::Black, ratatui::style::Color::Black) => true,
        (ratatui::style::Color::Red, ratatui::style::Color::Red) => true,
        (ratatui::style::Color::Green, ratatui::style::Color::Green) => true,
        (ratatui::style::Color::Yellow, ratatui::style::Color::Yellow) => true,
        (ratatui::style::Color::Blue, ratatui::style::Color::Blue) => true,
        (ratatui::style::Color::Magenta, ratatui::style::Color::Magenta) => true,
        (ratatui::style::Color::Cyan, ratatui::style::Color::Cyan) => true,
        (ratatui::style::Color::Gray, ratatui::style::Color::Gray) => true,
        (ratatui::style::Color::DarkGray, ratatui::style::Color::DarkGray) => true,
        (ratatui::style::Color::LightRed, ratatui::style::Color::LightRed) => true,
        (ratatui::style::Color::LightGreen, ratatui::style::Color::LightGreen) => true,
        (ratatui::style::Color::LightYellow, ratatui::style::Color::LightYellow) => true,
        (ratatui::style::Color::LightBlue, ratatui::style::Color::LightBlue) => true,
        (ratatui::style::Color::LightMagenta, ratatui::style::Color::LightMagenta) => true,
        (ratatui::style::Color::LightCyan, ratatui::style::Color::LightCyan) => true,
        (ratatui::style::Color::White, ratatui::style::Color::White) => true,
        (ratatui::style::Color::Rgb(r1, g1, b1), ratatui::style::Color::Rgb(r2, g2, b2)) => r1
            == r2 && g1 == g2 && b1 == b2,
        (ratatui::style::Color::Indexed(i), ratatui::style::Color::Indexed(j)) => i == j,
        _ => false,
    }
}

pub fn opt_color_eq(a: Option<ratatui::style::Color>, b: Option<ratatui::style::Color>) -> (r:
    bool)
    ensures
        r == (a == b),
{
    match (a, b) {
        (Some(x), Some(y)) => color_eq(x, y),
        (None, None) => true,
        _ => false,
    }
}

pub fn style_eq(a: TextStyle, b: TextStyle) -> (r: bool)
    ensures
        r == (a == b),
{
    let r = opt_color_eq(a.fg, b.fg) && opt_color_eq(a.bg, b.bg) && a.mods == b.mods;
    proof {
        if a.fg == b.fg && a.bg == b.bg && a.mods == b.mods {
            assert(a == b);
        }
    }
    r
}

/// The spec-level value of a span: its characters and its style.
pub struct SpanV {
    pub content: Seq<char>,
    pub style: TextStyle,
}

/// A styled run of text within one line.
pub struct StyledSpan {
    pub content: String,
    pub style: TextStyle,
}

impl View for StyledSpan {
    type V = SpanV;

    open spec fn view(&self) -> SpanV {
        SpanV { content: self.content@, style: self.style }
    }
}

impl StyledSpan {
    pub fn new(content: String, style: TextStyle) -> (r: StyledSpan)
        ensures
            r@.content == content@,
            r@.style == style,
    {
        StyledSpan { content, style }
    }

    pub fn raw(content: String) -> (r: StyledSpan)
        ensures
            r@.content == content@,
            r@.style == TextStyle::spec_plain(),
    {
        StyledSpan { content, style: TextStyle::plain() }
    }
}

/// The spec-level value of a line: its spans and its line-level style.
pub struct LineV {
    pub spans: Seq<SpanV>,
    pub style: TextStyle,
}

/// One styled logical line, as it is queued for the viewport or scrollback.
pub struct StyledLine {
    pub spans: Vec<StyledSpan>,
    pub style: TextStyle,
}

impl View for StyledLine {
    type V = LineV;

    open spec fn view(&self) -> LineV {
        LineV { spans: self.spans@.map_values(|s: StyledSpan| s@), style: self.style }
    }
}

/// The views of a list of spans.
pub open spec fn spans_view(ss: Seq<StyledSpan>) -> Seq<SpanV> {
    ss.map_values(|s: StyledSpan| s@)
}

/// The views of a list of lines.
pub open spec fn lines_view(ls: Seq<StyledLine>) -> Seq<LineV> {
    ls.map_values(|l: StyledLine| l@)
}

/// Views distribute over concatenation of line lists.
pub proof fn lemma_lines_view_concat(a: Seq<StyledLine>, b: Seq<StyledLine>)
    ensures
        lines_view(a + b) == lines_view(a) + lines_view(b),
{
    assert forall|j: int| 0 <= j < (a + b).len() implies #[trigger] lines_view(a + b)[j] == (
    lines_view(a) + lines_view(b))[j] by {
        assert(lines_view(a + b)[j] == (a + b)[j]@);
        if j < a.len() {
            assert((a + b)[j] == a[j]);
            assert(lines_view(a)[j] == a[j]@);
        } else {
            assert((a + b)[j] == b[j - a.len()]);
            assert(lines_view(b)[j - a.len()] == b[j - a.len()]@);
        }
    }
    assert(lines_view(a + b) =~= lines_view(a) + lines_view(b));
}

/// The plain text of a line: its span contents, concatenated.
pub open spec fn spec_line_text(l: LineV) -> Seq<char>
    decreases l.spans.len(),
{
    if l.spans.len() == 0 {
        Seq::<char>::empty()
    } else {
        spec_line_text(LineV { spans: l.spans.drop_last(), style: l.style })
            + l.spans.last().content
    }
}

pub proof fn lemma_line_text_push(spans: Seq<SpanV>, style: TextStyle, s: SpanV)
    ensures
        spec_line_text(LineV { spans: spans.push(s), style }) == spec_line_text(
            LineV { spans, style },
        ) + s.content,
{
    let l = LineV { spans: spans.push(s), style };
    assert(l.spans.drop_last() =~= spans);
    assert(l.spans.last() == s);
}

/// A line is blank when it has no spans or every span holds only spaces
/// (or nothing).
pub open spec fn spec_line_is_blank(l: LineV) -> bool {
    forall|i: int|
        0 <= i < l.spans.len() ==> (forall|j: int|
            0 <= j < (#[trigger] l.spans[i]).content.len() ==> spec_is_space(
                #[trigger] l.spans[i].content[j],
            ))
}

impl StyledLine {
    pub fn empty() -> (r: StyledLine)
        ensures
            r@.spans == Seq::<SpanV>::empty(),
            r@.spans.len() == 0,
            r@.style == TextStyle::spec_plain(),
            spec_line_is_blank(r@),
    {
        let r = StyledLine { spans: Vec::new(), style: TextStyle::plain() };
        proof {
            assert(r@.spans =~= Seq::<SpanV>::empty());
        }
        r
    }

    pub fn from_span(span: StyledSpan) -> (r: StyledLine)
        ensures
            r@.spans =~= seq![span@],
            r@.style == TextStyle::spec_plain(),
    {
        let mut spans: Vec<StyledSpan> = Vec::new();
        spans.push(span);
        StyledLine { spans, style: TextStyle::plain() }
    }

    pub fn from_spans(spans: Vec<StyledSpan>) -> (r: StyledLine)
        ensures
            r@.spans == spans@.map_values(|s: StyledSpan| s@),
            r@.style == TextStyle::spec_plain(),
    {
        StyledLine { spans, style: TextStyle::plain() }
    }

    pub fn with_style(self, style: TextStyle) -> (r: StyledLine)
        ensures
            r@.spans == self@.spans,
            r@.style == style,
    {
        StyledLine { spans: self.spans, style }
    }

    /// The plain text of the line.
    pub fn plain_text(&self) -> (r: Vec<char>)
        ensures
            r@ == spec_line_text(self@),
    {
        let mut out: Vec<char> = Vec::new();
        let mut i: usize = 0;
        while i < self.spans.len()
            invariant
                i <= self.spans@.len(),
                out@ == spec_line_text(
                    LineV {
                        spans: self.spans@.map_values(|s: StyledSpan| s@).take(i as int),
                        style: self.style,
                    },
                ),
            decreases self.spans@.len() - i,
        {
            let cs = crate::text::chars_of_str(self.spans[i].content.as_str());
            crate::text::append_chars(&mut out, &cs);
            proof {
                let m = self.spans@.map_values(|s: StyledSpan| s@);
                assert(m.take(i + 1 as int).drop_last() =~= m.take(i as int));
                assert(m.take(i + 1 as int).last() == self.spans@[i as int]@);
            }
            i += 1;
        }
        proof {
            let m = self.spans@.map_values(|s: StyledSpan| s@);
            assert(m.take(self.spans@.len() as int) =~= m);
        }
        out
    }

    /// Whether the line is blank (no spans, or only space characters).
    pub fn is_blank(&self) -> (r: bool)
        ensures
            r == spec_line_is_blank(self@),
    {
        let mut i: usize = 0;
        while i < self.spans.len()
            invariant
                i <= self.spans@.len(),
                forall|k: int|
                    0 <= k < i ==> (forall|j: int|
                        0 <= j < (#[trigger] self@.spans[k]).content.len() ==> spec_is_space(
                            #[trigger] self@.spans[k].content[j],
                        )),
            decreases self.spans@.len() - i,
        {
            let cs = crate::text::chars_of_str(self.spans[i].content.as_str());
            if !crate::text::chars_is_blank(&cs) {
                proof {
                    let j = choose|j: int|
                        0 <= j < cs@.len() && !spec_is_space(cs@[j]);
                    assert(!spec_line_is_blank(self@)) by {
                        if spec_line_is_blank(self@) {
                            assert(spec_is_space(self@.spans[i as int].content[j]));
                        }
                    }
                }
                return false;
            }
            i += 1;
        }
        true
    }
}

} // verus!
