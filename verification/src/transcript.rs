//! The transcript: committed messages, at most one active (streaming)
//! message, and a watermark over the committed messages that still need to
//! flow into scrollback. Also renders committed messages into styled
//! history lines.

use vstd::prelude::*;
use crate::message::{LiveMessage, MessageBlock, spec_message_has_content, spec_message_wf};
use crate::style::{
    StyledLine,
    StyledSpan,
    TextStyle,
    MOD_BOLD,
    MOD_DIM,
    MOD_ITALIC,
    spec_line_is_blank,
};
use crate::text::{chars_of_str, string_of_chars, append_chars, chars_is_blank};

verus! {

pub struct TranscriptState {
    pub committed_messages: Vec<LiveMessage>,
    pub committed_rendered_count: usize,
    pub active_message: Option<LiveMessage>,
}

impl TranscriptState {
    pub open spec fn spec_wf(self) -> bool {
        &&& self.committed_rendered_count <= self.committed_messages@.len()
        &&& forall|i: int|
            0 <= i < self.committed_messages@.len() ==> spec_message_wf(
                #[trigger] self.committed_messages@[i],
            )
        &&& (self.active_message matches Some(m) ==> spec_message_wf(m))
    }

    pub fn new() -> (r: TranscriptState)
        ensures
            r.spec_wf(),
            r.committed_messages@.len() == 0,
            r.committed_rendered_count == 0,
            r.active_message is None,
    {
        TranscriptState {
            committed_messages: Vec::new(),
            committed_rendered_count: 0,
            active_message: None,
        }
    }

    pub fn clear(&mut self)
        ensures
            final(self).spec_wf(),
            final(self).committed_messages@.len() == 0,
            final(self).committed_rendered_count == 0,
            final(self).active_message is None,
    {
        self.committed_messages = Vec::new();
        self.committed_rendered_count = 0;
        self.active_message = None;
    }

    pub fn has_active_message(&self) -> (r: bool)
        ensures
            r == (self.active_message is Some),
    {
        matches!(self.active_message, Some(_))
    }

    /// Finalizes the active message; it joins the committed list only when
    /// it has content, so no empty message is ever committed.
    pub fn finalize_active_if_content(&mut self)
        requires
            old(self).spec_wf(),
        ensures
            final(self).spec_wf(),
            final(self).active_message is None,
            final(self).committed_rendered_count == old(self).committed_rendered_count,
            match old(self).active_message {
                Some(m) => {
                    if spec_message_has_content(m) {
                        &&& final(self).committed_messages@.len() == old(self).committed_messages@.len() + 1
                        &&& final(self).committed_messages@.last().blocks == m.blocks
                        &&& final(self).committed_messages@.last().finalized
                        &&& final(self).committed_messages@.last().streamed_to_scrollback
                            == m.streamed_to_scrollback
                        &&& forall|i: int|
                            0 <= i < old(self).committed_messages@.len() ==> (#[trigger] final(self).committed_messages@[i])
                                == old(self).committed_messages@[i]
                    } else {
                        final(self).committed_messages == old(self).committed_messages
                    }
                },
                None => final(self).committed_messages == old(self).committed_messages,
            },
    {
        let mut taken: Option<LiveMessage> = None;
        core::mem::swap(&mut taken, &mut self.active_message);
        match taken {
            Some(mut m) => {
                m.finalized = true;
                if m.has_content() {
                    self.committed_messages.push(m);
                }
            },
            None => {},
        }
    }

    /// Commits the current active message if it has content, then begins a
    /// fresh one.
    pub fn start_active_message(&mut self)
        requires
            old(self).spec_wf(),
        ensures
            final(self).spec_wf(),
            final(self).active_message matches Some(m) && m.blocks@.len() == 0
                && !m.streamed_to_scrollback,
            final(self).committed_rendered_count == old(self).committed_rendered_count,
            old(self).active_message is None ==> final(self).committed_messages == old(self).committed_messages,
    {
        self.finalize_active_if_content();
        self.active_message = Some(LiveMessage::new());
    }

    /// Appends an already-final message.
    pub fn push_committed_message(&mut self, message: LiveMessage)
        requires
            old(self).spec_wf(),
            spec_message_wf(message),
        ensures
            final(self).spec_wf(),
            final(self).committed_messages@.len() == old(self).committed_messages@.len() + 1,
            final(self).committed_messages@.last().blocks == message.blocks,
            final(self).committed_messages@.last().finalized,
            forall|i: int|
                0 <= i < old(self).committed_messages@.len() ==> (#[trigger] final(self).committed_messages@[i])
                    == old(self).committed_messages@[i],
            final(self).committed_rendered_count == old(self).committed_rendered_count,
            final(self).active_message == old(self).active_message,
    {
        let mut m = message;
        m.finalized = true;
        self.committed_messages.push(m);
    }

    /// The number of committed messages not yet rendered into scrollback.
    pub fn unrendered_committed_count(&self) -> (r: usize)
        requires
            self.spec_wf(),
        ensures
            r == self.committed_messages@.len() - self.committed_rendered_count,
    {
        self.committed_messages.len() - self.committed_rendered_count
    }

    /// Moves the watermark past every committed message.
    pub fn mark_committed_as_rendered(&mut self)
        requires
            old(self).spec_wf(),
        ensures
            final(self).spec_wf(),
            final(self).committed_messages == old(self).committed_messages,
            final(self).active_message == old(self).active_message,
            final(self).committed_rendered_count == final(self).committed_messages@.len(),
    {
        self.committed_rendered_count = self.committed_messages.len();
    }
}

/// The view of a line (helper for proofs).
pub open spec fn LineV_of(l: StyledLine) -> crate::style::LineV {
    l@
}

/// A line with the two-space indent span prepended.
pub open spec fn spec_indent_line_v(l: crate::style::LineV) -> crate::style::LineV {
    crate::style::LineV {
        spans: seq![
            crate::style::SpanV { content: "  "@, style: TextStyle::spec_plain() },
        ] + l.spans,
        style: l.style,
    }
}

/// Each line with the two-space indent span prepended.
pub open spec fn spec_indent_lines_v(ls: Seq<crate::style::LineV>) -> Seq<crate::style::LineV> {
    ls.map_values(|l: crate::style::LineV| spec_indent_line_v(l))
}

/// A span restyled for thinking content: dark gray, dim and italic on top
/// of its own style.
pub open spec fn spec_think_span_v(s: crate::style::SpanV) -> crate::style::SpanV {
    crate::style::SpanV {
        content: s.content,
        style: TextStyle {
            fg: Some(ratatui::style::Color::DarkGray),
            bg: s.style.bg,
            mods: s.style.mods | MOD_DIM | MOD_ITALIC,
        },
    }
}

/// A line with every span restyled for thinking content.
pub open spec fn spec_think_line_v(l: crate::style::LineV) -> crate::style::LineV {
    crate::style::LineV {
        spans: l.spans.map_values(|s: crate::style::SpanV| spec_think_span_v(s)),
        style: l.style,
    }
}

/// Each line restyled for thinking content.
pub open spec fn spec_think_lines_v(ls: Seq<crate::style::LineV>) -> Seq<crate::style::LineV> {
    ls.map_values(|l: crate::style::LineV| spec_think_line_v(l))
}

/// A 2-space indent span prepended to a line, aligning stream content with
/// the user `\u{203a} ` prefix.
pub fn indent_line(line: StyledLine) -> (r: StyledLine)
    ensures
        r@ == spec_indent_line_v(line@),
        r@.spans.len() == line@.spans.len() + 1,
        r@.spans[0].content == "  "@,
        forall|j: int| 0 <= j < line@.spans.len() ==> #[trigger] r@.spans[j + 1] == line@.spans[j],
        spec_line_is_blank(r@) <==> spec_line_is_blank(line@),
{
    proof {
        reveal_strlit("  ");
    }
    let mut spans: Vec<StyledSpan> = Vec::new();
    spans.push(StyledSpan::raw(String::from_str("  ")));
    let mut rest = line.spans;
    let n = rest.len();
    let ghost restv = crate::style::spans_view(rest@);
    let mut i: usize = 0;
    while i < n
        invariant
            i <= n,
            rest@.len() == n - i,
            restv.len() == n,
            crate::style::spans_view(rest@) == restv.skip(i as int),
            spans@.len() == i + 1,
            crate::style::spans_view(spans@)[0] == (crate::style::SpanV {
                content: "  "@,
                style: TextStyle::spec_plain(),
            }),
            forall|j: int|
                0 <= j < i ==> #[trigger] crate::style::spans_view(spans@)[j + 1] == restv[j],
        decreases n - i,
    {
        let ghost prerest = rest@;
        let ghost prespans = spans@;
        let sp = rest.remove(0);
        let ghost spv = sp;
        spans.push(sp);
        proof {
            assert(spv == prerest[0]);
            assert(crate::style::spans_view(prerest)[0] == prerest[0]@);
            assert(crate::style::spans_view(prerest) == restv.skip(i as int));
            assert(spans@ == prespans.push(spv));
            assert(crate::style::spans_view(prespans).len() == prespans.len());
            assert forall|j: int|
                0 <= j < rest@.len() implies #[trigger] crate::style::spans_view(rest@)[j]
                == restv.skip(i + 1)[j] by {
                assert(crate::style::spans_view(rest@)[j] == rest@[j]@);
                assert(rest@[j] == prerest[j + 1]);
                assert(crate::style::spans_view(prerest)[j + 1] == prerest[j + 1]@);
            }
            assert(crate::style::spans_view(rest@) =~~= restv.skip(i + 1));
            assert forall|j: int|
                0 <= j < i + 1 implies #[trigger] crate::style::spans_view(spans@)[j + 1]
                == restv[j] by {
                assert(crate::style::spans_view(spans@)[j + 1] == spans@[j + 1]@);
                if j < i {
                    assert(spans@[j + 1] == prespans[j + 1]);
                    assert(crate::style::spans_view(prespans)[j + 1] == prespans[j + 1]@);
                } else {
                    assert(spans@[j + 1] == spv);
                    assert(spv@ == restv[i as int]);
                }
            }
            assert(crate::style::spans_view(spans@)[0] == (crate::style::SpanV {
                content: "  "@,
                style: TextStyle::spec_plain(),
            })) by {
                assert(spans@[0] == prespans[0]);
                assert(crate::style::spans_view(spans@)[0] == spans@[0]@);
                assert(crate::style::spans_view(prespans)[0] == prespans[0]@);
            }
        }
        i += 1;
    }
    let r = StyledLine { spans, style: line.style };
    proof {
        assert(r@.spans.len() == restv.len() + 1);
        assert forall|j: int| 0 <= j < restv.len() implies #[trigger] r@.spans[j + 1] == restv[j]
            by {}
        assert(r@.spans[0].content == "  "@);
        assert(r@.spans[0].style == TextStyle::spec_plain());
        assert(restv == line@.spans);
        assert forall|k: int|
            0 <= k < r@.spans.len() implies #[trigger] r@.spans[k] == spec_indent_line_v(
            line@,
        ).spans[k] by {
            if k > 0 {
                let j = k - 1;
                assert(r@.spans[j + 1] == restv[j]);
            }
        }
        assert(r@.spans =~= spec_indent_line_v(line@).spans);
        assert(r@ == spec_indent_line_v(line@));
        assert(crate::text::spec_is_blank(r@.spans[0].content)) by {
            assert(r@.spans[0].content[0] == ' ' && r@.spans[0].content[1] == ' ');
        }
        if spec_line_is_blank(LineV_of(line)) {
            assert forall|a: int|
                0 <= a < r@.spans.len() implies (forall|b: int|
                0 <= b < (#[trigger] r@.spans[a]).content.len() ==> crate::text::spec_is_space(
                    #[trigger] r@.spans[a].content[b],
                )) by {
                if a >= 1 {
                    let j = a - 1;
                    assert(r@.spans[j + 1] == restv[j]);
                    assert(r@.spans[a] == restv[a - 1]);
                }
            }
        }
        if spec_line_is_blank(r@) {
            assert forall|a: int|
                0 <= a < line@.spans.len() implies (forall|b: int|
                0 <= b < (#[trigger] line@.spans[a]).content.len()
                    ==> crate::text::spec_is_space(#[trigger] line@.spans[a].content[b])) by {
                let j = a;
                assert(r@.spans[j + 1] == restv[j]);
                assert(line@.spans[a] == restv[a]);
            }
        }
    }
    r
}

/// Indents every line by two columns.
pub fn indent_lines(lines: Vec<StyledLine>) -> (r: Vec<StyledLine>)
    ensures
        crate::style::lines_view(r@) == spec_indent_lines_v(crate::style::lines_view(lines@)),
        r@.len() == lines@.len(),
        forall|i: int|
            0 <= i < lines@.len() ==> (#[trigger] r@[i]@.spans).len() == lines@[i]@.spans.len()
                + 1,
        forall|i: int|
            0 <= i < lines@.len() ==> (spec_line_is_blank(#[trigger] r@[i]@)
                <==> spec_line_is_blank(lines@[i]@)),
{
    let mut out: Vec<StyledLine> = Vec::new();
    let mut rest = lines;
    let n = rest.len();
    let ghost lv = crate::style::lines_view(rest@);
    let mut i: usize = 0;
    while i < n
        invariant
            i <= n,
            rest@.len() == n - i,
            lv.len() == n,
            crate::style::lines_view(rest@) == lv.skip(i as int),
            out@.len() == i,
            forall|j: int| 0 <= j < i ==> #[trigger] out@[j]@ == spec_indent_line_v(lv[j]),
            forall|j: int|
                0 <= j < i ==> (#[trigger] out@[j]@.spans).len() == lv[j].spans.len() + 1,
            forall|j: int|
                0 <= j < i ==> (spec_line_is_blank(#[trigger] out@[j]@) <==> spec_line_is_blank(
                    lv[j],
                )),
        decreases n - i,
    {
        let ghost prerest = rest@;
        let line = rest.remove(0);
        proof {
            assert(line == prerest[0]);
            assert(crate::style::lines_view(prerest)[0] == prerest[0]@);
            assert forall|j: int|
                0 <= j < rest@.len() implies #[trigger] crate::style::lines_view(rest@)[j]
                == lv.skip(i + 1)[j] by {
                assert(crate::style::lines_view(rest@)[j] == rest@[j]@);
                assert(rest@[j] == prerest[j + 1]);
                assert(crate::style::lines_view(prerest)[j + 1] == prerest[j + 1]@);
            }
            assert(crate::style::lines_view(rest@) =~~= lv.skip(i + 1));
        }
        let ghost linev = line@;
        let indented = indent_line(line);
        out.push(indented);
        proof {
            assert(linev == lv[i as int]);
        }
        i += 1;
    }
    proof {
        assert forall|j: int|
            0 <= j < crate::style::lines_view(out@).len() implies #[trigger] crate::style::lines_view(
            out@,
        )[j] == spec_indent_lines_v(lv)[j] by {
            assert(crate::style::lines_view(out@)[j] == out@[j]@);
        }
        assert(crate::style::lines_view(out@) =~~= spec_indent_lines_v(lv));
    }
    out
}

/// Thinking lines restyled dim, italic and dark gray on top of their
/// markdown styles.
pub fn style_thinking_lines(lines: Vec<StyledLine>) -> (r: Vec<StyledLine>)
    ensures
        crate::style::lines_view(r@) == spec_think_lines_v(crate::style::lines_view(lines@)),
        r@.len() == lines@.len(),
        forall|i: int|
            0 <= i < lines@.len() ==> (spec_line_is_blank(#[trigger] r@[i]@)
                <==> spec_line_is_blank(lines@[i]@)),
{
    let mut out: Vec<StyledLine> = Vec::new();
    let mut rest = lines;
    let n = rest.len();
    let ghost lv = crate::style::lines_view(rest@);
    let mut i: usize = 0;
    while i < n
        invariant
            i <= n,
            rest@.len() == n - i,
            lv.len() == n,
            crate::style::lines_view(rest@) == lv.skip(i as int),
            out@.len() == i,
            forall|k: int| 0 <= k < i ==> #[trigger] out@[k]@ == spec_think_line_v(lv[k]),
            forall|k: int|
                0 <= k < i ==> (spec_line_is_blank(#[trigger] out@[k]@) <==> spec_line_is_blank(
                    lv[k],
                )),
        decreases n - i,
    {
        let ghost prerest = rest@;
        let line = rest.remove(0);
        proof {
            assert(line == prerest[0]);
            assert(crate::style::lines_view(prerest)[0] == prerest[0]@);
            assert forall|k: int|
                0 <= k < rest@.len() implies #[trigger] crate::style::lines_view(rest@)[k]
                == lv.skip(i + 1)[k] by {
                assert(crate::style::lines_view(rest@)[k] == rest@[k]@);
                assert(rest@[k] == prerest[k + 1]);
                assert(crate::style::lines_view(prerest)[k + 1] == prerest[k + 1]@);
            }
            assert(crate::style::lines_view(rest@) =~~= lv.skip(i + 1));
        }
        let ghost linev = line@;
        let mut spans: Vec<StyledSpan> = Vec::new();
        let mut sprest = line.spans;
        let m = sprest.len();
        let ghost spv = crate::style::spans_view(sprest@);
        let mut j: usize = 0;
        while j < m
            invariant
                j <= m,
                sprest@.len() == m - j,
                spv.len() == m,
                crate::style::spans_view(sprest@) == spv.skip(j as int),
                spans@.len() == j,
                forall|k: int| 0 <= k < j ==> #[trigger] spans@[k]@ == spec_think_span_v(spv[k]),
                forall|k: int|
                    0 <= k < j ==> (#[trigger] spans@[k]@).content == spv[k].content,
            decreases m - j,
        {
            let ghost presp = sprest@;
            let sp = sprest.remove(0);
            proof {
                assert(sp == presp[0]);
                assert(crate::style::spans_view(presp)[0] == presp[0]@);
                assert forall|k: int|
                    0 <= k < sprest@.len() implies #[trigger] crate::style::spans_view(
                    sprest@,
                )[k] == spv.skip(j + 1)[k] by {
                    assert(crate::style::spans_view(sprest@)[k] == sprest@[k]@);
                    assert(sprest@[k] == presp[k + 1]);
                    assert(crate::style::spans_view(presp)[k + 1] == presp[k + 1]@);
                }
                assert(crate::style::spans_view(sprest@) =~~= spv.skip(j + 1));
            }
            let styled = TextStyle {
                fg: Some(ratatui::style::Color::DarkGray),
                bg: sp.style.bg,
                mods: sp.style.mods | MOD_DIM | MOD_ITALIC,
            };
            let ns = StyledSpan { content: sp.content, style: styled };
            let ghost nsv = ns;
            spans.push(ns);
            proof {
                assert(spans@.last() == nsv);
                assert(sp@ == spv[j as int]);
                assert(nsv@ == spec_think_span_v(spv[j as int]));
                assert(nsv@.content == spv[j as int].content);
            }
            j += 1;
        }
        let nl = StyledLine { spans, style: line.style };
        let ghost nlv = nl;
        out.push(nl);
        proof {
            assert(out@.last() == nlv);
            assert(linev == lv[i as int]);
            assert(nlv@ == spec_think_line_v(lv[i as int])) by {
                assert forall|k: int|
                    0 <= k < nlv@.spans.len() implies #[trigger] nlv@.spans[k]
                    == spec_think_line_v(lv[i as int]).spans[k] by {
                    assert(nlv@.spans[k] == spec_think_span_v(spv[k]));
                    assert(spv == linev.spans);
                }
                assert(nlv@.spans =~= spec_think_line_v(lv[i as int]).spans);
            }
            assert(spec_line_is_blank(nlv@) <==> spec_line_is_blank(lv[i as int])) by {
                assert(nlv@.spans.len() == linev.spans.len());
                if spec_line_is_blank(linev) {
                    assert forall|a: int|
                        0 <= a < nlv@.spans.len() implies (forall|b: int|
                        0 <= b < (#[trigger] nlv@.spans[a]).content.len()
                            ==> crate::text::spec_is_space(#[trigger] nlv@.spans[a].content[b]))
                        by {
                        assert(nlv@.spans[a].content == linev.spans[a].content);
                    }
                }
                if spec_line_is_blank(nlv@) {
                    assert forall|a: int|
                        0 <= a < linev.spans.len() implies (forall|b: int|
                        0 <= b < (#[trigger] linev.spans[a]).content.len()
                            ==> crate::text::spec_is_space(#[trigger] linev.spans[a].content[b]))
                        by {
                        assert(nlv@.spans[a].content == linev.spans[a].content);
                    }
                }
            }
        }
        i += 1;
    }
    proof {
        assert forall|j: int|
            0 <= j < crate::style::lines_view(out@).len() implies #[trigger]
            crate::style::lines_view(out@)[j] == spec_think_lines_v(lv)[j] by {
            assert(crate::style::lines_view(out@)[j] == out@[j]@);
        }
        assert(crate::style::lines_view(out@) =~~= spec_think_lines_v(lv));
    }
    out
}

/// The scrollback lines of one committed message: markdown-rendered text
/// (indented), restyled thinking, user text with the composer background,
/// and tool blocks through the registry, with a single blank separator
/// between blocks unless the previous block already ended blank.
pub fn message_history_lines(
    message: &LiveMessage,
    width: u16,
    bg: Option<(u8, u8, u8)>,
    non_streamed_only: bool,
) -> (r: Vec<StyledLine>)
    requires
        spec_message_wf(*message),
{
    let render_width: Option<usize> = if width > 2 {
        Some((width - 2) as usize)
    } else if width > 0 {
        Some(width as usize)
    } else {
        None
    };
    let mut lines: Vec<StyledLine> = Vec::new();
    let mut b: usize = 0;
    while b < message.blocks.len()
        invariant
            b <= message.blocks@.len(),
            spec_message_wf(*message),
        decreases message.blocks@.len() - b,
    {
        let block_lines_start = lines.len();
        match &message.blocks[b] {
            MessageBlock::PlainText(t) => {
                if !non_streamed_only {
                    let cs = chars_of_str(t.content.as_str());
                    if cs.len() > 0 {
                        let rendered = crate::markdown::render_markdown_lines(&cs, render_width);
                        let indented = indent_lines(rendered);
                        crate::renderer::append_lines(&mut lines, indented);
                    }
                }
            },
            MessageBlock::Thinking(t) => {
                if !non_streamed_only {
                    let cs = chars_of_str(t.content.as_str());
                    if !chars_is_blank(&cs) {
                        let rendered = crate::markdown::render_markdown_lines(&cs, render_width);
                        let styled = style_thinking_lines(rendered);
                        let indented = indent_lines(styled);
                        crate::renderer::append_lines(&mut lines, indented);
                    }
                }
            },
            MessageBlock::UserText(t) => {
                push_user_text_history_lines(t.content.as_str(), width, bg, &mut lines);
            },
            MessageBlock::ToolUse(t) => {
                proof {
                    assert(crate::message::spec_block_wf(message.blocks@[b as int]));
                }
                let tool_bg = crate::terminal_color::tool_content_bg(bg);
                let tl = crate::tool_render::tool_history_lines(t, tool_bg);
                crate::renderer::append_lines(&mut lines, tl);
            },
        }
        // A single blank separator between blocks, unless the previous block
        // already ends with a blank line.
        if lines.len() > block_lines_start && block_lines_start > 0 {
            let prev_is_blank = lines[block_lines_start - 1].is_blank();
            if !prev_is_blank {
                lines.insert(block_lines_start, StyledLine::empty());
            }
        }
        b += 1;
    }
    lines
}

/// User text in scrollback: a leading blank line, a padded composer-colored
/// block with a quote prefix on the first visual line, and a trailing blank
/// line.
pub fn push_user_text_history_lines(
    content: &str,
    width: u16,
    bg: Option<(u8, u8, u8)>,
    lines: &mut Vec<StyledLine>,
)
{
    proof {
        reveal_strlit("\u{203a} ");
        reveal_strlit("  ");
    }
    let cs = chars_of_str(content);
    if cs.len() == 0 {
        return ;
    }
    let bgc = crate::terminal_color::composer_bg(bg);
    let bg_style = TextStyle::plain().with_bg(bgc);
    let w = width as usize;
    lines.push(StyledLine::empty());
    lines.push(bg_filled_line(Vec::new(), w, bg_style));
    let wrap_width = if width > 3 {
        (width - 3) as usize
    } else if width >= 1 {
        width as usize
    } else {
        1
    };
    let prefix_style = TextStyle { fg: None, bg: Some(bgc), mods: MOD_BOLD | MOD_DIM };
    let logical = crate::text::lines_of(&cs);
    let mut first_visual = true;
    let mut i: usize = 0;
    while i < logical.len()
        invariant
            i <= logical@.len(),
        decreases logical@.len() - i,
    {
        if logical[i].len() == 0 {
            let prefix = if first_visual {
                first_visual = false;
                StyledSpan::new(String::from_str("\u{203a} "), prefix_style)
            } else {
                StyledSpan::new(String::from_str("  "), bg_style)
            };
            let mut spans: Vec<StyledSpan> = Vec::new();
            spans.push(prefix);
            lines.push(bg_filled_line(spans, w, bg_style));
        } else {
            let ls = string_of_chars(&logical[i]);
            let wrapped = crate::wrap::wrap_first_fit(ls.as_str(), wrap_width);
            let mut k: usize = 0;
            while k < wrapped.len()
                invariant
                    k <= wrapped@.len(),
                decreases wrapped@.len() - k,
            {
                let prefix = if first_visual {
                    first_visual = false;
                    StyledSpan::new(String::from_str("\u{203a} "), prefix_style)
                } else {
                    StyledSpan::new(String::from_str("  "), bg_style)
                };
                let wc = chars_of_str(wrapped[k].as_str());
                let mut spans: Vec<StyledSpan> = Vec::new();
                spans.push(prefix);
                spans.push(StyledSpan::new(string_of_chars(&wc), bg_style));
                lines.push(bg_filled_line(spans, w, bg_style));
                k += 1;
            }
        }
        i += 1;
    }
    lines.push(bg_filled_line(Vec::new(), w, bg_style));
    lines.push(StyledLine::empty());
}

/// A line padded with background-colored spaces to the full width.
fn bg_filled_line(spans: Vec<StyledSpan>, width: usize, bg_style: TextStyle) -> (r: StyledLine) {
    let mut used: usize = 0;
    let mut i: usize = 0;
    while i < spans.len()
        invariant
            i <= spans@.len(),
        decreases spans@.len() - i,
    {
        let c = crate::text::chars_of_str(spans[i].content.as_str());
        used = if used <= usize::MAX - c.len() {
            used + c.len()
        } else {
            usize::MAX
        };
        i += 1;
    }
    let mut all = spans;
    if used < width {
        let pad = crate::tool_render::spaces_vec(width - used);
        all.push(StyledSpan::new(string_of_chars(&pad), bg_style));
    }
    StyledLine::from_spans(all).with_style(bg_style)
}

} // verus!

