//! Newline-gated markdown streaming. Markdown rendering and word wrapping
//! come from the tui-markdown and ratatui crates through two trusted
//! wrappers whose results are named; everything around them — the cell-run
//! reconstruction into styled spans, the used-row scan, the height estimate
//! and the collector's watermark logic — is verified.

use vstd::prelude::*;
use crate::style::{StyledLine, StyledSpan, TextStyle, LineV, SpanV, spec_line_is_blank, style_eq};
use crate::text::{
    chars_of_str,
    string_of_chars,
    append_chars,
    subrange_vec,
    spec_lines,
    count_lines,
    spec_has_nl,
};

verus! {

/// One screen cell of the markdown scratch rendering: its grapheme (empty
/// for the continuation cell of a wide glyph) and its style.
pub struct TermCell {
    pub symbol: String,
    pub fg: ratatui::style::Color,
    pub bg: ratatui::style::Color,
    pub mods: u16,
}

/// The spec-level value of a cell.
pub struct CellV {
    pub symbol: Seq<char>,
    pub fg: ratatui::style::Color,
    pub bg: ratatui::style::Color,
    pub mods: u16,
}

impl View for TermCell {
    type V = CellV;

    open spec fn view(&self) -> CellV {
        CellV { symbol: self.symbol@, fg: self.fg, bg: self.bg, mods: self.mods }
    }
}

/// The views of one row of cells.
pub open spec fn cells_view(row: Seq<TermCell>) -> Seq<CellV> {
    row.map_values(|c: TermCell| c@)
}

/// The views of a grid of cells.
pub open spec fn rows_view(rows: Seq<Vec<TermCell>>) -> Seq<Seq<CellV>> {
    rows.map_values(|row: Vec<TermCell>| cells_view(row@))
}

/// The cell grid that rendering `src` as markdown into a `width` by
/// `height` area produces.
pub uninterp spec fn md_cell_rows(src: Seq<char>, width: int, height: int) -> Seq<Seq<CellV>>;

/// Relies on tui_markdown::from_str and ratatui's Paragraph with untrimmed
/// wrapping: renders `source` into a cell grid of exactly `height` rows of
/// `width` cells. The result depends on the text and dimensions alone.
/// ratatui's `Rect::new` silently shrinks any area above 65535 cells, so
/// the full dimensions are only honored under that bound, which callers
/// must keep.
#[verifier::external_body]
pub fn md_render_cells(source: &str, width: u16, height: u16) -> (rows: Vec<Vec<TermCell>>)
    requires
        width as int * height as int <= 65535,
    ensures
        rows_view(rows@) == md_cell_rows(source@, width as int, height as int),
        rows@.len() == height,
        forall|y: int| 0 <= y < rows@.len() ==> (#[trigger] rows@[y])@.len() == width,
{
    let area = ratatui::layout::Rect::new(0, 0, width, height);
    let mut tmp = ratatui::buffer::Buffer::empty(area);
    let para = ratatui::widgets::Paragraph::new(tui_markdown::from_str(source)).wrap(
        ratatui::widgets::Wrap { trim: false },
    );
    ratatui::widgets::Widget::render(para, area, &mut tmp);
    (0..height).map(|y| (0..width).filter_map(|x| tmp.cell((x, y))).map(|c| TermCell {
        symbol: c.symbol().to_string(), fg: c.fg, bg: c.bg, mods: c.modifier.bits(),
    }).collect()).collect()
}

/// The styled lines tui_markdown produces for `src` without any wrapping.
pub uninterp spec fn md_lines_of(src: Seq<char>) -> Seq<LineV>;

/// Relies on tui_markdown::from_str: the markdown rendering of `source` as
/// styled lines, unwrapped. The result depends on the text alone.
#[verifier::external_body]
pub fn md_render_raw(source: &str) -> (r: Vec<StyledLine>)
    ensures
        crate::style::lines_view(r@) == md_lines_of(source@),
{
    tui_markdown::from_str(source).lines.into_iter().map(|l| StyledLine {
        style: TextStyle { fg: l.style.fg, bg: l.style.bg, mods: l.style.add_modifier.bits() },
        spans: l.spans.into_iter().map(|sp| StyledSpan {
            content: sp.content.into_owned(),
            style: TextStyle { fg: sp.style.fg, bg: sp.style.bg, mods: sp.style.add_modifier.bits() },
        }).collect(),
    }).collect()
}

/// The style a cell paints with.
pub open spec fn spec_cell_style(c: CellV) -> TextStyle {
    TextStyle { fg: Some(c.fg), bg: Some(c.bg), mods: c.mods }
}

/// The span-merging accumulator after a prefix of a row: the finished spans,
/// the run being built, and its style (none until the first visible cell).
pub open spec fn spec_merge_acc(row: Seq<CellV>) -> (Seq<SpanV>, Seq<char>, Option<TextStyle>)
    decreases row.len(),
{
    if row.len() == 0 {
        (Seq::<SpanV>::empty(), Seq::<char>::empty(), None::<TextStyle>)
    } else {
        let prev = spec_merge_acc(row.drop_last());
        let c = row.last();
        if c.symbol.len() == 0 {
            prev
        } else {
            match prev.2 {
                Some(st) => {
                    if spec_cell_style(c) == st {
                        (prev.0, prev.1 + c.symbol, prev.2)
                    } else {
                        (
                            prev.0.push(SpanV { content: prev.1, style: st }),
                            c.symbol,
                            Some(spec_cell_style(c)),
                        )
                    }
                },
                None => (prev.0, c.symbol, Some(spec_cell_style(c))),
            }
        }
    }
}

/// One row of cells as a styled line: adjacent equal-style cells merge into
/// one span; a row with no visible cell becomes an empty line.
pub open spec fn spec_row_line(row: Seq<CellV>) -> LineV {
    let acc = spec_merge_acc(row);
    match acc.2 {
        Some(st) => LineV {
            spans: acc.0.push(SpanV { content: acc.1, style: st }),
            style: TextStyle::spec_plain(),
        },
        None => LineV { spans: Seq::<SpanV>::empty(), style: TextStyle::spec_plain() },
    }
}

/// A row counts as used when some cell shows something besides a space.
pub open spec fn spec_row_used(row: Seq<CellV>) -> bool {
    exists|x: int|
        0 <= x < row.len() && (#[trigger] row[x]).symbol.len() > 0 && row[x].symbol != " "@
}

/// One past the last used row, scanning from the bottom.
pub open spec fn spec_used_rows(rows: Seq<Seq<CellV>>) -> int
    decreases rows.len(),
{
    if rows.len() == 0 {
        0
    } else if spec_row_used(rows.last()) {
        rows.len() as int
    } else {
        spec_used_rows(rows.drop_last())
    }
}

/// `n` capped at `u64::MAX`.
pub open spec fn spec_cap_u64(n: int) -> int {
    if n > u64::MAX {
        u64::MAX as int
    } else {
        n
    }
}

/// The scratch-buffer height estimate for rendering `src` at `width`: a
/// generous ceiling derived from the character budget, clamped to
/// `[16, 8192]`.
pub open spec fn spec_estimate_height(src: Seq<char>, width: int) -> int
    recommends
        width > 0,
{
    let base_lines = if spec_lines(src).len() >= 1 {
        spec_lines(src).len() as int
    } else {
        1
    };
    let char_budget = spec_cap_u64(src.len() + spec_cap_u64(base_lines * 8));
    let rough_wrap = char_budget / width;
    let estimate = spec_cap_u64(spec_cap_u64(rough_wrap + base_lines) + 16);
    if estimate < 16 {
        16
    } else if estimate > 8192 {
        8192
    } else {
        estimate
    }
}

/// The scratch height used when rendering `src` at `width` columns.
pub fn estimate_render_height(src: &Vec<char>, width: u16) -> (r: u16)
    ensures
        width == 0 ==> r == 1,
        width > 0 ==> r as int == spec_estimate_height(src@, width as int),
        1 <= r <= 8192,
{
    if width == 0 {
        return 1;
    }
    let n = count_lines(src);
    let base_lines: u64 = if n >= 1 {
        if n as u64 <= u64::MAX {
            n as u64
        } else {
            u64::MAX
        }
    } else {
        1
    };
    let scaled: u64 = if base_lines <= u64::MAX / 8 {
        base_lines * 8
    } else {
        u64::MAX
    };
    let len64: u64 = src.len() as u64;
    let char_budget: u64 = if len64 <= u64::MAX - scaled {
        len64 + scaled
    } else {
        u64::MAX
    };
    let rough_wrap: u64 = char_budget / (width as u64);
    let step: u64 = if rough_wrap <= u64::MAX - base_lines {
        rough_wrap + base_lines
    } else {
        u64::MAX
    };
    let estimate: u64 = if step <= u64::MAX - 16 {
        step + 16
    } else {
        u64::MAX
    };
    let clamped: u64 = if estimate < 16 {
        16
    } else if estimate > 8192 {
        8192
    } else {
        estimate
    };
    clamped as u16
}

/// The scratch height for rendering at `w2` columns: the estimate, capped
/// so the grid stays within ratatui's 65535-cell area bound, at least one
/// row.
pub open spec fn spec_capped_height(src: Seq<char>, w2: int) -> int {
    let est = spec_estimate_height(src, w2);
    let cap = 65535int / w2;
    let h = (if est < cap {
        est
    } else {
        cap
    });
    if h < 1 {
        1
    } else {
        h
    }
}

/// The rendered form of `src` at an optional width: the markdown lines,
/// wrapped through the cell grid when a positive width is set, always at
/// least one (possibly empty) line.
pub open spec fn spec_rendered(src: Seq<char>, width: Option<usize>) -> Seq<LineV> {
    match width {
        Some(w) => {
            if w == 0 {
                spec_padded(md_lines_of(src))
            } else {
                let w2 = if w < 65535 {
                    w as int
                } else {
                    65535
                };
                let h = spec_capped_height(src, w2);
                let rows = md_cell_rows(src, w2, h);
                let used = spec_used_rows(rows);
                spec_padded(
                    Seq::new(used as nat, |y: int| spec_row_line(rows[y])),
                )
            }
        },
        None => spec_padded(md_lines_of(src)),
    }
}

/// `lines`, or one empty line when there are none.
pub open spec fn spec_padded(lines: Seq<LineV>) -> Seq<LineV> {
    if lines.len() == 0 {
        seq![LineV { spans: Seq::<SpanV>::empty(), style: TextStyle::spec_plain() }]
    } else {
        lines
    }
}

/// Renders `source` as markdown: unwrapped when no positive width is set,
/// else wrapped through a scratch cell grid whose rows are merged back into
/// styled lines, trailing blank rows dropped.
pub fn render_markdown_lines(source: &Vec<char>, width: Option<usize>) -> (r: Vec<StyledLine>)
    ensures
        crate::style::lines_view(r@) == spec_rendered(source@, width),
        r@.len() >= 1,
{
    let w = match width {
        Some(w) => {
            if w == 0 {
                let s = string_of_chars(source);
                let mut lines = md_render_raw(s.as_str());
                if lines.len() == 0 {
                    lines.push(StyledLine::empty());
                    proof {
                        assert(crate::style::lines_view(lines@) =~~= spec_padded(
                            md_lines_of(source@),
                        ));
                    }
                } else {
                    proof {
                        assert(crate::style::lines_view(lines@) =~~= spec_padded(
                            md_lines_of(source@),
                        ));
                    }
                }
                return lines;
            }
            if w < 65535 {
                w
            } else {
                65535
            }
        },
        None => {
            let s = string_of_chars(source);
            let mut lines = md_render_raw(s.as_str());
            if lines.len() == 0 {
                lines.push(StyledLine::empty());
                proof {
                    assert(crate::style::lines_view(lines@) =~~= spec_padded(
                        md_lines_of(source@),
                    ));
                }
            } else {
                proof {
                    assert(crate::style::lines_view(lines@) =~~= spec_padded(
                        md_lines_of(source@),
                    ));
                }
            }
            return lines;
        },
    };
    let est = estimate_render_height(source, w as u16);
    let cap = 65535 / w;
    let capped = if (est as usize) < cap {
        est as usize
    } else {
        cap
    };
    let max_height: u16 = if capped < 1 {
        1
    } else {
        capped as u16
    };
    proof {
        assert(max_height as int == spec_capped_height(source@, w as int));
        assert(w as int * max_height as int <= 65535) by {
            vstd::arithmetic::div_mod::lemma_fundamental_div_mod(65535int, w as int);
            assert(w as int * (65535int / w as int) <= 65535) by (nonlinear_arith)
                requires
                    w >= 1,
                    65535int == (65535int / w as int) * w + (65535int % w as int),
                    0 <= 65535int % w as int,
            ;
            if max_height as int <= 65535int / w as int {
                assert(w as int * max_height as int <= w as int * (65535int / w as int))
                    by (nonlinear_arith)
                    requires
                        w >= 1,
                        max_height as int <= 65535int / w as int,
                ;
            } else {
                assert(max_height == 1);
            }
        }
    }
    let s = string_of_chars(source);
    let rows = md_render_cells(s.as_str(), w as u16, max_height);
    let ghost rows_v = rows_view(rows@);
    let used = find_used_rows(&rows);
    let mut lines: Vec<StyledLine> = Vec::new();
    let mut y: usize = 0;
    while y < used
        invariant
            used <= rows@.len(),
            rows_v == rows_view(rows@),
            y <= used,
            crate::style::lines_view(lines@) == Seq::new(
                y as nat,
                |i: int| spec_row_line(rows_v[i]),
            ),
        decreases used - y,
    {
        let line = merge_row(&rows[y]);
        let ghost pre = lines@;
        lines.push(line);
        proof {
            assert(rows_v[y as int] == cells_view(rows@[y as int]@));
            assert(line@ == spec_row_line(rows_v[y as int]));
            assert(lines@ == pre.push(line));
            assert(crate::style::lines_view(pre).len() == pre.len());
            assert(pre.len() == y);
            assert forall|i: int| 0 <= i < lines@.len() implies crate::style::lines_view(
                lines@,
            )[i] == spec_row_line(rows_v[i]) by {
                assert(crate::style::lines_view(lines@)[i] == lines@[i]@);
                if i < y {
                    assert(lines@[i] == pre[i]);
                    assert(crate::style::lines_view(pre)[i] == pre[i]@);
                    assert(crate::style::lines_view(pre)[i] == Seq::new(
                        y as nat,
                        |j: int| spec_row_line(rows_v[j]),
                    )[i]);
                }
            }
            assert(crate::style::lines_view(lines@) =~~= Seq::new(
                (y + 1) as nat,
                |i: int| spec_row_line(rows_v[i]),
            ));
        }
        y += 1;
    }
    if lines.len() == 0 {
        lines.push(StyledLine::empty());
    }
    proof {
        assert(crate::style::lines_view(lines@) =~~= spec_rendered(source@, width));
    }
    lines
}

/// One row of cells merged into a styled line (see `spec_row_line`).
pub fn merge_row(row: &Vec<TermCell>) -> (r: StyledLine)
    ensures
        r@ == spec_row_line(cells_view(row@)),
{
    let ghost rv = cells_view(row@);
    let mut spans: Vec<StyledSpan> = Vec::new();
    let mut cur: Vec<char> = Vec::new();
    let mut style: Option<TextStyle> = None;
    let mut x: usize = 0;
    while x < row.len()
        invariant
            x <= row@.len(),
            rv == cells_view(row@),
            ({
                let acc = spec_merge_acc(rv.take(x as int));
                &&& crate::style::spans_view(spans@) == acc.0
                &&& cur@ == acc.1
                &&& style == acc.2
            }),
        decreases row@.len() - x,
    {
        proof {
            assert(rv.take(x + 1).drop_last() =~= rv.take(x as int));
            assert(rv.take(x + 1).last() == rv[x as int]);
        }
        let sym = chars_of_str(row[x].symbol.as_str());
        if sym.len() > 0 {
            let cst = TextStyle { fg: Some(row[x].fg), bg: Some(row[x].bg), mods: row[x].mods };
            proof {
                assert(cst == spec_cell_style(rv[x as int]));
            }
            match style {
                Some(st) => {
                    if style_eq(cst, st) {
                        append_chars(&mut cur, &sym);
                    } else {
                        let content = string_of_chars(&cur);
                        spans.push(StyledSpan { content, style: st });
                        cur = sym;
                        style = Some(cst);
                        proof {
                            assert(crate::style::spans_view(spans@) =~~= spec_merge_acc(
                                rv.take(x + 1),
                            ).0);
                        }
                    }
                },
                None => {
                    cur = sym;
                    style = Some(cst);
                },
            }
        }
        x += 1;
    }
    proof {
        assert(rv.take(rv.len() as int) =~= rv);
    }
    match style {
        Some(st) => {
            let content = string_of_chars(&cur);
            spans.push(StyledSpan { content, style: st });
            let r = StyledLine::from_spans(spans);
            proof {
                assert(r@.spans =~~= spec_row_line(rv).spans);
                assert(r@ == spec_row_line(rv));
            }
            r
        },
        None => {
            let r = StyledLine::empty();
            proof {
                assert(r@.spans =~~= spec_row_line(rv).spans);
                assert(r@ == spec_row_line(rv));
            }
            r
        },
    }
}

/// One past the last row showing anything besides spaces.
pub fn find_used_rows(rows: &Vec<Vec<TermCell>>) -> (r: usize)
    ensures
        r as int == spec_used_rows(rows_view(rows@)),
        r <= rows@.len(),
{
    let ghost rows_v = rows_view(rows@);
    let mut y = rows.len();
    proof {
        assert(rows_v.take(rows_v.len() as int) =~= rows_v);
    }
    while y > 0
        invariant
            y <= rows@.len(),
            rows_v == rows_view(rows@),
            spec_used_rows(rows_v) == spec_used_rows(rows_v.take(y as int)),
        decreases y,
    {
        proof {
            assert(rows_v.take(y as int).last() == rows_v[y - 1]);
            assert(rows_v.take(y as int).drop_last() =~= rows_v.take(y - 1));
        }
        proof {
            assert(rows_v[y - 1] == cells_view(rows@[y - 1]@));
        }
        if row_is_used(&rows[y - 1]) {
            return y;
        }
        y -= 1;
    }
    proof {
        assert(rows_v.take(0) =~= Seq::<Seq<CellV>>::empty());
    }
    0
}

/// True when the row shows anything besides spaces.
fn row_is_used(row: &Vec<TermCell>) -> (r: bool)
    ensures
        r == spec_row_used(cells_view(row@)),
{
    proof {
        reveal_strlit(" ");
    }
    let ghost rv = cells_view(row@);
    let mut x: usize = 0;
    while x < row.len()
        invariant
            x <= row@.len(),
            rv == cells_view(row@),
            forall|j: int|
                0 <= j < x ==> !((#[trigger] rv[j]).symbol.len() > 0 && rv[j].symbol != " "@),
        decreases row@.len() - x,
    {
        let sym = chars_of_str(row[x].symbol.as_str());
        proof {
            reveal_strlit(" ");
            assert(rv[x as int].symbol == sym@);
        }
        if sym.len() > 0 && !(sym.len() == 1 && sym[0] == ' ') {
            proof {
                if sym@.len() == 1 {
                    assert(sym@[0] != ' ');
                    assert(" "@ =~= seq![' ']);
                    assert(sym@ != " "@);
                } else {
                    assert(" "@ =~= seq![' ']);
                    assert(sym@ != " "@);
                }
            }
            return true;
        }
        proof {
            if sym@.len() == 1 && sym@[0] == ' ' {
                assert(sym@ =~= " "@);
            }
        }
        x += 1;
    }
    false
}

/// The index of the last newline in `s`, or -1 when there is none.
pub open spec fn spec_last_nl(s: Seq<char>) -> int
    decreases s.len(),
{
    if s.len() == 0 {
        -1
    } else if s.last() == '\n' {
        s.len() - 1
    } else {
        spec_last_nl(s.drop_last())
    }
}

/// The committable prefix of the stream buffer: everything up to and
/// including the last newline (empty when there is none).
pub open spec fn spec_eligible(s: Seq<char>) -> Seq<char> {
    s.take(spec_last_nl(s) + 1)
}

/// The live tail of the stream buffer: everything after the last newline.
pub open spec fn spec_tail(s: Seq<char>) -> Seq<char> {
    s.skip(spec_last_nl(s) + 1)
}

/// A newline exists exactly when the last-newline index is meaningful.
pub proof fn lemma_last_nl_bounds(s: Seq<char>)
    ensures
        -1 <= spec_last_nl(s) < s.len(),
        spec_has_nl(s) <==> spec_last_nl(s) >= 0,
        spec_last_nl(s) >= 0 ==> s[spec_last_nl(s)] == '\n',
    decreases s.len(),
{
    if s.len() > 0 {
        lemma_last_nl_bounds(s.drop_last());
        if s.last() != '\n' {
            assert(spec_has_nl(s) ==> spec_has_nl(s.drop_last())) by {
                if spec_has_nl(s) {
                    let i = choose|i: int| 0 <= i < s.len() && s[i] == '\n';
                    assert(s.drop_last()[i] == '\n');
                }
            }
            assert(spec_has_nl(s.drop_last()) ==> spec_has_nl(s));
        }
    }
}

/// Law: the buffer splits exactly into the committable prefix and the live
/// tail, and the tail holds no newline. Together with the commit contract
/// this pins what the viewport shows against what has flowed to scrollback.
pub proof fn lemma_buffer_splits_into_eligible_and_tail(s: Seq<char>)
    ensures
        spec_eligible(s) + spec_tail(s) == s,
        !spec_has_nl(spec_tail(s)),
    decreases s.len(),
{
    lemma_last_nl_bounds(s);
    assert(spec_eligible(s) + spec_tail(s) =~= s);
    if s.len() > 0 && s.last() != '\n' {
        lemma_buffer_splits_into_eligible_and_tail(s.drop_last());
        assert(spec_tail(s) =~= spec_tail(s.drop_last()).push(s.last()));
        assert(!spec_has_nl(spec_tail(s))) by {
            if spec_has_nl(spec_tail(s)) {
                let i = choose|i: int|
                    0 <= i < spec_tail(s).len() && spec_tail(s)[i] == '\n';
                if i < spec_tail(s).len() - 1 {
                    assert(spec_tail(s.drop_last())[i] == '\n');
                }
            }
        }
    }
}

/// The number of complete lines: all of them, except a final blank one.
pub open spec fn spec_complete_count(lines: Seq<LineV>) -> int {
    if lines.len() > 0 && spec_line_is_blank(lines.last()) {
        lines.len() - 1
    } else {
        lines.len() as int
    }
}

/// The line count after trailing blank lines are stripped, never below
/// `floor`.
pub open spec fn spec_strip_end(lines: Seq<LineV>, floor: int) -> int
    decreases lines.len(),
{
    if lines.len() == 0 || lines.len() <= floor {
        lines.len() as int
    } else if spec_line_is_blank(lines.last()) {
        spec_strip_end(lines.drop_last(), floor)
    } else {
        lines.len() as int
    }
}

/// Stripping stops at a non-blank line: when anything was stripped or kept
/// above the floor, the last kept line is not blank.
pub proof fn lemma_strip_end_last(lines: Seq<LineV>, floor: int)
    requires
        floor >= 0,
    ensures
        spec_strip_end(lines, floor) <= lines.len(),
        spec_strip_end(lines, floor) > floor ==> !spec_line_is_blank(
            lines[spec_strip_end(lines, floor) - 1],
        ),
    decreases lines.len(),
{
    if lines.len() != 0 && lines.len() > floor && spec_line_is_blank(lines.last()) {
        lemma_strip_end_last(lines.drop_last(), floor);
        let k = spec_strip_end(lines, floor);
        assert(k == spec_strip_end(lines.drop_last(), floor));
        if k > floor {
            assert(k <= lines.drop_last().len());
            assert(lines.drop_last()[k - 1] == lines[k - 1]);
        }
    }
}

/// Newline-gated markdown accumulator: an append-only source buffer plus a
/// monotone watermark of already-committed rendered lines.
pub struct MarkdownStreamCollector {
    pub buffer: Vec<char>,
    pub committed_line_count: usize,
    pub width: Option<usize>,
}

impl MarkdownStreamCollector {
    pub fn new(width: Option<usize>) -> (r: MarkdownStreamCollector)
        ensures
            r.buffer@.len() == 0,
            r.committed_line_count == 0,
            r.width == width,
    {
        MarkdownStreamCollector { buffer: Vec::new(), committed_line_count: 0, width }
    }

    pub fn clear(&mut self)
        ensures
            final(self).buffer@.len() == 0,
            final(self).committed_line_count == 0,
            final(self).width == old(self).width,
    {
        self.buffer = Vec::new();
        self.committed_line_count = 0;
    }

    pub fn set_width(&mut self, width: Option<usize>)
        ensures
            final(self).buffer == old(self).buffer,
            final(self).committed_line_count == old(self).committed_line_count,
            final(self).width == width,
    {
        self.width = width;
    }

    /// Appends a delta to the source buffer.
    pub fn push_delta(&mut self, delta: &str)
        ensures
            final(self).buffer@ == old(self).buffer@ + delta@,
            final(self).committed_line_count == old(self).committed_line_count,
            final(self).width == old(self).width,
    {
        let cs = chars_of_str(delta);
        append_chars(&mut self.buffer, &cs);
    }

    /// One past the last newline of the buffer (zero when there is none).
    fn eligible_end(&self) -> (k: usize)
        ensures
            k as int == spec_last_nl(self.buffer@) + 1,
    {
        let mut i = self.buffer.len();
        proof {
            assert(self.buffer@.take(self.buffer@.len() as int) =~= self.buffer@);
        }
        while i > 0
            invariant
                i <= self.buffer@.len(),
                spec_last_nl(self.buffer@) == spec_last_nl(self.buffer@.take(i as int)),
            decreases i,
        {
            proof {
                assert(self.buffer@.take(i as int).last() == self.buffer@[i - 1]);
                assert(self.buffer@.take(i as int).drop_last() =~= self.buffer@.take(i - 1));
            }
            if self.buffer[i - 1] == '\n' {
                return i;
            }
            i -= 1;
        }
        proof {
            assert(self.buffer@.take(0) =~= Seq::<char>::empty());
        }
        0
    }

    /// The live tail after the last newline, as shown in the viewport.
    pub fn current_tail(&self) -> (r: String)
        ensures
            r@ == spec_tail(self.buffer@),
    {
        proof {
            lemma_last_nl_bounds(self.buffer@);
        }
        let k = self.eligible_end();
        let v = subrange_vec(&self.buffer, k, self.buffer.len());
        string_of_chars(&v)
    }

    /// Renders the committable prefix and returns only the newly completed
    /// lines past the watermark, advancing it. A final blank rendered line
    /// is withheld until real content follows it. No newline, no output.
    pub fn commit_complete_lines(&mut self) -> (r: Vec<StyledLine>)
        ensures
            final(self).buffer == old(self).buffer,
            final(self).width == old(self).width,
            !spec_has_nl(old(self).buffer@) ==> r@.len() == 0 && *final(self) == *old(self),
            spec_has_nl(old(self).buffer@) ==> ({
                let rendered = spec_rendered(spec_eligible(old(self).buffer@), old(self).width);
                let complete = spec_complete_count(rendered);
                if old(self).committed_line_count >= complete {
                    r@.len() == 0 && final(self).committed_line_count == old(
                        self,
                    ).committed_line_count
                } else {
                    &&& crate::style::lines_view(r@) == rendered.subrange(
                        old(self).committed_line_count as int,
                        complete,
                    )
                    &&& final(self).committed_line_count == complete
                }
            }),
            final(self).committed_line_count >= old(self).committed_line_count,
    {
        proof {
            lemma_last_nl_bounds(self.buffer@);
        }
        let k = self.eligible_end();
        if k == 0 {
            return Vec::new();
        }
        let source = subrange_vec(&self.buffer, 0, k);
        let mut rendered = render_markdown_lines(&source, self.width);
        let ghost rendered_v = crate::style::lines_view(rendered@);
        let mut complete = rendered.len();
        if complete > 0 && rendered[complete - 1].is_blank() {
            complete = complete - 1;
        }
        proof {
            assert(rendered_v.last() == rendered@[rendered@.len() - 1]@);
            assert(complete as int == spec_complete_count(rendered_v));
        }
        if self.committed_line_count >= complete {
            return Vec::new();
        }
        let out = take_line_range(&mut rendered, self.committed_line_count, complete);
        self.committed_line_count = complete;
        out
    }

    /// Appends a virtual final newline if missing, renders everything,
    /// returns the remaining lines past the watermark (trailing blanks
    /// stripped), and clears the collector.
    pub fn finalize_and_drain(&mut self) -> (r: Vec<StyledLine>)
        ensures
            ({
                let src = (if old(self).buffer@.len() > 0 && old(self).buffer@.last() == '\n' {
                    old(self).buffer@
                } else {
                    old(self).buffer@.push('\n')
                });
                let rendered = spec_rendered(src, old(self).width);
                let end = spec_strip_end(rendered, old(self).committed_line_count as int);
                if old(self).committed_line_count >= end {
                    r@.len() == 0
                } else {
                    crate::style::lines_view(r@) == rendered.subrange(
                        old(self).committed_line_count as int,
                        end,
                    )
                }
            }),
            final(self).buffer@.len() == 0,
            final(self).committed_line_count == 0,
            final(self).width == old(self).width,
    {
        let mut source = self.buffer.clone();
        if source.len() == 0 || source[source.len() - 1] != '\n' {
            source.push('\n');
        }
        let mut rendered = render_markdown_lines(&source, self.width);
        let ghost rendered_v = crate::style::lines_view(rendered@);
        let committed = self.committed_line_count;
        let mut end = rendered.len();
        proof {
            assert(rendered_v.take(end as int) =~= rendered_v);
        }
        while end > committed && line_at_is_blank(&rendered, end)
            invariant
                end <= rendered@.len(),
                rendered_v == crate::style::lines_view(rendered@),
                spec_strip_end(rendered_v, committed as int) == spec_strip_end(
                    rendered_v.take(end as int),
                    committed as int,
                ),
            decreases end,
        {
            proof {
                assert(rendered_v.take(end as int).last() == rendered@[end - 1]@);
                assert(rendered_v.take(end as int).drop_last() =~= rendered_v.take(end - 1));
            }
            end -= 1;
        }
        proof {
            if end > committed {
                assert(rendered_v.take(end as int).last() == rendered@[end - 1]@);
                assert(spec_strip_end(rendered_v.take(end as int), committed as int)
                    == end as int);
            } else {
                assert(rendered_v.take(end as int).len() <= committed);
            }
        }
        let out = if committed >= end {
            Vec::new()
        } else {
            take_line_range(&mut rendered, committed, end)
        };
        self.clear();
        out
    }
}

/// Blank test for the line before `end`.
fn line_at_is_blank(lines: &Vec<StyledLine>, end: usize) -> (r: bool)
    requires
        1 <= end <= lines@.len(),
    ensures
        r == spec_line_is_blank(lines@[end - 1]@),
{
    lines[end - 1].is_blank()
}

/// Removes and returns lines `[from, to)`.
fn take_line_range(lines: &mut Vec<StyledLine>, from: usize, to: usize) -> (r: Vec<StyledLine>)
    requires
        from <= to <= old(lines)@.len(),
    ensures
        crate::style::lines_view(r@) == crate::style::lines_view(old(lines)@).subrange(
            from as int,
            to as int,
        ),
{
    let ghost orig = lines@;
    let mut r: Vec<StyledLine> = Vec::new();
    let mut i = from;
    while i < to
        invariant
            from <= i <= to <= orig.len(),
            lines@ == orig,
            crate::style::lines_view(r@) == crate::style::lines_view(orig).subrange(
                from as int,
                i as int,
            ),
        decreases to - i,
    {
        let ghost pre = r@;
        let line = clone_line(&lines[i]);
        let ghost lv = line;
        r.push(line);
        proof {
            assert(r@ == pre.push(lv));
            assert(crate::style::lines_view(pre).len() == pre.len());
            assert(pre.len() == i - from);
            assert(lv@ == orig[i as int]@);
            assert forall|j: int|
                0 <= j < r@.len() implies crate::style::lines_view(r@)[j] == crate::style::lines_view(
                orig,
            ).subrange(from as int, i + 1)[j] by {
                assert(crate::style::lines_view(r@)[j] == r@[j]@);
                if j < i - from {
                    assert(r@[j] == pre[j]);
                    assert(crate::style::lines_view(pre)[j] == pre[j]@);
                }
            }
            assert(crate::style::lines_view(r@) =~~= crate::style::lines_view(orig).subrange(
                from as int,
                i + 1,
            ));
        }
        i += 1;
    }
    r
}

/// A value copy of one line.
pub fn clone_line(l: &StyledLine) -> (r: StyledLine)
    ensures
        r@ == l@,
{
    let mut spans: Vec<StyledSpan> = Vec::new();
    let mut i: usize = 0;
    while i < l.spans.len()
        invariant
            i <= l.spans@.len(),
            crate::style::spans_view(spans@) == crate::style::spans_view(l.spans@).subrange(
                0,
                i as int,
            ),
        decreases l.spans@.len() - i,
    {
        let ghost pre = spans@;
        let cs = chars_of_str(l.spans[i].content.as_str());
        let content = string_of_chars(&cs);
        let sp = StyledSpan { content, style: l.spans[i].style };
        let ghost spv = sp;
        spans.push(sp);
        proof {
            assert(spans@ == pre.push(spv));
            assert(crate::style::spans_view(pre).len() == pre.len());
            assert(pre.len() == i);
            assert(spv@ == l.spans@[i as int]@);
            assert forall|j: int|
                0 <= j < spans@.len() implies crate::style::spans_view(spans@)[j]
                == crate::style::spans_view(l.spans@).subrange(0, i + 1)[j] by {
                assert(crate::style::spans_view(spans@)[j] == spans@[j]@);
                if j < i {
                    assert(spans@[j] == pre[j]);
                    assert(crate::style::spans_view(pre)[j] == pre[j]@);
                }
            }
            assert(crate::style::spans_view(spans@) =~~= crate::style::spans_view(
                l.spans@,
            ).subrange(0, i + 1));
        }
        i += 1;
    }
    proof {
        assert(crate::style::spans_view(l.spans@).subrange(0, l.spans@.len() as int)
            =~= crate::style::spans_view(l.spans@));
    }
    let r = StyledLine { spans, style: l.style };
    proof {
        assert(r@ =~~= l@);
        assert(r@.spans =~~= l@.spans);
    }
    r
}

} // verus!

