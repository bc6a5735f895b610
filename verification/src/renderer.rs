//! The rendering orchestrator: owns the transcript and the streaming
//! controller, sequences stream flushes and tool blocks with blank
//! separators, buffers history lines (deferring them while an overlay is
//! open), and carries the status state (error, info, pending message, plan,
//! spinner).

use vstd::prelude::*;
use crate::transcript::{TranscriptState, indent_lines, style_thinking_lines};
use crate::streaming::{StreamingController, StreamKind, DrainedLines};
use crate::message::{
    LiveMessage,
    MessageBlock,
    PlainTextBlock,
    ThinkingBlock,
    ToolUseBlock,
    ToolStatus,
    spec_block_wf,
};
use crate::style::{StyledLine, StyledSpan, TextStyle, spec_line_is_blank, lines_view};
use crate::text::{
    chars_of_str,
    string_of_chars,
    append_chars,
    push_decimal,
    spec_decimal,
    chars_is_blank,
};

verus! {

/// One plan item's lifecycle status.
#[derive(Clone, Copy, Debug, PartialEq, Eq, Structural)]
pub enum PlanItemStatus {
    Pending,
    InProgress,
    Completed,
}

/// One plan item.
#[derive(Debug)]
pub struct PlanItem {
    pub content: String,
    pub status: PlanItemStatus,
}

/// The agent's plan, as last reported.
#[derive(Debug)]
pub struct PlanState {
    pub entries: Vec<PlanItem>,
}

/// The loading spinner's state.
#[derive(Debug)]
pub enum SpinnerState {
    Hidden,
    Loading { start_ms: u64 },
    RateLimit { start_ms: u64, seconds_remaining: u64 },
}

/// The kind of the last text-bearing block, for paragraph breaks after
/// hidden tools.
#[derive(Clone, Copy, Debug, PartialEq, Eq, Structural)]
pub enum LastBlockType {
    PlainText,
    Thinking,
}

pub struct TerminalRenderer {
    /// Committed history plus the active streaming message.
    pub transcript: TranscriptState,
    /// Message queued behind a busy session, shown in the status area.
    pub pending_user_message: Option<String>,
    /// Error shown in the status area until dismissed.
    pub current_error: Option<String>,
    /// Informational status message.
    pub info_message: Option<String>,
    /// The plan, as last reported.
    pub plan_state: Option<PlanState>,
    /// Whether the expanded plan view is shown.
    pub plan_expanded: bool,
    /// While true, history commits are deferred and flushed on close.
    pub overlay_active: bool,
    /// History buffered while the overlay is active.
    pub deferred_history_lines: Vec<StyledLine>,
    /// History ready to be pushed above the viewport on the next draw.
    pub pending_history_lines: Vec<StyledLine>,
    /// Per-kind stream state and the adaptive drain policy.
    pub streaming_controller: StreamingController,
    /// True while the current assistant turn still streams.
    pub streaming_open: bool,
    /// The kind of the last delta, for sequencing kind switches.
    pub last_stream_kind: Option<StreamKind>,
    /// Spinner state.
    pub spinner_state: SpinnerState,
    /// Tracks the last text-bearing block kind for hidden-tool breaks.
    pub last_block_type_for_hidden_tool: Option<LastBlockType>,
    /// Set when a hidden tool completed; the next same-kind text block gets
    /// a paragraph break.
    pub needs_paragraph_break_after_hidden_tool: bool,
    /// Last known terminal width.
    pub last_known_width: u16,
    /// The detected terminal background, for composer-colored history.
    pub terminal_bg: Option<(u8, u8, u8)>,
}

impl TerminalRenderer {
    pub open spec fn spec_wf(self) -> bool {
        self.transcript.spec_wf()
    }

    pub fn new(terminal_bg: Option<(u8, u8, u8)>) -> (r: TerminalRenderer)
        ensures
            r.spec_wf(),
            r.transcript.committed_messages@.len() == 0,
            r.transcript.active_message is None,
            r.pending_history_lines@.len() == 0,
            r.deferred_history_lines@.len() == 0,
            !r.streaming_open,
            !r.overlay_active,
            r.current_error is None,
            r.info_message is None,
            r.pending_user_message is None,
            r.plan_state is None,
            r.spinner_state is Hidden,
            r.last_stream_kind is None,
    {
        TerminalRenderer {
            transcript: TranscriptState::new(),
            pending_user_message: None,
            current_error: None,
            info_message: None,
            plan_state: None,
            plan_expanded: false,
            overlay_active: false,
            deferred_history_lines: Vec::new(),
            pending_history_lines: Vec::new(),
            streaming_controller: StreamingController::new(),
            streaming_open: false,
            last_stream_kind: None,
            spinner_state: SpinnerState::Hidden,
            last_block_type_for_hidden_tool: None,
            needs_paragraph_break_after_hidden_tool: false,
            last_known_width: 80,
            terminal_bg,
        }
    }

    /// Law (overlay buffering): while the overlay is active, new history
    /// lines go to the deferred buffer and the pending buffer does not grow;
    /// otherwise they append to the pending buffer, keeping their order.
    pub fn insert_or_defer_history_lines(&mut self, lines: Vec<StyledLine>)
        ensures
            self_frame_status(*old(self), *final(self)),
            final(self).transcript == old(self).transcript,
            final(self).streaming_controller == old(self).streaming_controller,
            final(self).streaming_open == old(self).streaming_open,
            final(self).last_stream_kind == old(self).last_stream_kind,
            old(self).overlay_active ==> {
                &&& final(self).pending_history_lines == old(self).pending_history_lines
                &&& final(self).deferred_history_lines@ == old(self).deferred_history_lines@
                    + lines@
            },
            !old(self).overlay_active ==> {
                &&& final(self).pending_history_lines@ == old(self).pending_history_lines@
                    + lines@
                &&& final(self).deferred_history_lines == old(self).deferred_history_lines
            },
    {
        if lines.len() == 0 {
            proof {
                assert(old(self).pending_history_lines@ + lines@
                    =~= old(self).pending_history_lines@);
                assert(old(self).deferred_history_lines@ + lines@
                    =~= old(self).deferred_history_lines@);
            }
            return ;
        }
        if self.overlay_active {
            append_lines(&mut self.deferred_history_lines, lines);
        } else {
            append_lines(&mut self.pending_history_lines, lines);
        }
    }

    /// Law (overlay close): the deferred lines move into the pending buffer
    /// in their original order.
    pub fn flush_deferred_history_lines(&mut self)
        requires
            !old(self).overlay_active,
        ensures
            self_frame_status(*old(self), *final(self)),
            final(self).transcript == old(self).transcript,
            final(self).streaming_controller == old(self).streaming_controller,
            final(self).streaming_open == old(self).streaming_open,
            final(self).last_stream_kind == old(self).last_stream_kind,
            final(self).deferred_history_lines@.len() == 0,
            final(self).pending_history_lines@ == old(self).pending_history_lines@ + old(self).deferred_history_lines@,
    {
        let mut taken: Vec<StyledLine> = Vec::new();
        core::mem::swap(&mut taken, &mut self.deferred_history_lines);
        if taken.len() == 0 {
            proof {
                assert(old(self).pending_history_lines@ + old(self).deferred_history_lines@
                    =~= old(self).pending_history_lines@);
            }
            return ;
        }
        append_lines(&mut self.pending_history_lines, taken);
    }

    /// Hands the pending history lines to the terminal layer, emptying the
    /// buffer.
    pub fn drain_pending_history_lines(&mut self) -> (r: Vec<StyledLine>)
        ensures
            self_frame_status(*old(self), *final(self)),
            final(self).transcript == old(self).transcript,
            final(self).streaming_controller == old(self).streaming_controller,
            final(self).streaming_open == old(self).streaming_open,
            final(self).last_stream_kind == old(self).last_stream_kind,
            final(self).deferred_history_lines == old(self).deferred_history_lines,
            r@ == old(self).pending_history_lines@,
            final(self).pending_history_lines@.len() == 0,
    {
        let mut taken: Vec<StyledLine> = Vec::new();
        core::mem::swap(&mut taken, &mut self.pending_history_lines);
        taken
    }

    /// Pre-styled lines (the welcome banner) append directly to the pending
    /// buffer.
    pub fn add_styled_history_lines(&mut self, lines: Vec<StyledLine>)
        ensures
            final(self).pending_history_lines@ == old(self).pending_history_lines@ + lines@,
            final(self).transcript == old(self).transcript,
    {
        append_lines(&mut self.pending_history_lines, lines);
    }

    pub fn set_error(&mut self, error_message: String)
        ensures
            final(self).current_error matches Some(e) && e@ == error_message@,
            renderer_frame_but_error(*old(self), *final(self)),
    {
        self.current_error = Some(error_message);
    }

    pub fn clear_error(&mut self)
        ensures
            final(self).current_error is None,
            renderer_frame_but_error(*old(self), *final(self)),
    {
        self.current_error = None;
    }

    pub fn has_error(&self) -> (r: bool)
        ensures
            r == (self.current_error is Some),
    {
        matches!(self.current_error, Some(_))
    }

    pub fn set_info(&mut self, info_message: String)
        ensures
            final(self).info_message matches Some(e) && e@ == info_message@,
    {
        self.info_message = Some(info_message);
    }

    pub fn clear_info(&mut self)
        ensures
            final(self).info_message is None,
    {
        self.info_message = None;
    }

    pub fn set_pending_user_message(&mut self, message: Option<String>)
        ensures
            final(self).pending_user_message == message,
    {
        self.pending_user_message = message;
    }

    pub fn set_plan_state(&mut self, plan: Option<PlanState>)
        ensures
            final(self).plan_state == plan,
            final(self).transcript == old(self).transcript,
            final(self).pending_history_lines == old(self).pending_history_lines,
            final(self).deferred_history_lines == old(self).deferred_history_lines,
            final(self).plan_expanded == old(self).plan_expanded,
    {
        self.plan_state = plan;
    }

    pub fn set_plan_expanded(&mut self, expanded: bool)
        ensures
            final(self).plan_expanded == expanded,
    {
        self.plan_expanded = expanded;
    }

    pub fn set_overlay_active(&mut self, active: bool)
        ensures
            final(self).overlay_active == active,
            final(self).pending_history_lines == old(self).pending_history_lines,
            final(self).deferred_history_lines == old(self).deferred_history_lines,
    {
        self.overlay_active = active;
    }

    pub fn show_rate_limit_spinner(&mut self, now_ms: u64, seconds_remaining: u64)
        ensures
            final(self).spinner_state matches SpinnerState::RateLimit {
                start_ms,
                seconds_remaining: s,
            } && start_ms == now_ms && s == seconds_remaining,
    {
        self.spinner_state = SpinnerState::RateLimit { start_ms: now_ms, seconds_remaining };
    }

    pub fn hide_spinner(&mut self)
        ensures
            final(self).spinner_state is Hidden,
    {
        self.spinner_state = SpinnerState::Hidden;
    }

    pub fn hide_loading_spinner_if_active(&mut self)
        ensures
            old(self).spinner_state is Loading ==> final(self).spinner_state is Hidden,
            !(old(self).spinner_state is Loading) ==> final(self).spinner_state == old(self).spinner_state,
            final(self).transcript == old(self).transcript,
            final(self).pending_history_lines == old(self).pending_history_lines,
            final(self).deferred_history_lines == old(self).deferred_history_lines,
            final(self).streaming_controller == old(self).streaming_controller,
            final(self).last_stream_kind == old(self).last_stream_kind,
            final(self).overlay_active == old(self).overlay_active,
            final(self).streaming_open == old(self).streaming_open,
            final(self).last_known_width == old(self).last_known_width,
    {
        if matches!(self.spinner_state, SpinnerState::Loading { .. }) {
            self.spinner_state = SpinnerState::Hidden;
        }
    }

    /// The next same-kind text block after a hidden tool gets a paragraph
    /// break, applied when `ensure_last_block_type` sees that block.
    pub fn mark_hidden_tool_completed(&mut self)
        ensures
            final(self).needs_paragraph_break_after_hidden_tool,
            final(self).transcript == old(self).transcript,
            final(self).pending_history_lines == old(self).pending_history_lines,
            final(self).deferred_history_lines == old(self).deferred_history_lines,
    {
        self.needs_paragraph_break_after_hidden_tool = true;
    }

    /// Makes sure the active message ends in a block of the given kind,
    /// appending the block when it does not; returns whether it was
    /// appended. When a hidden tool completed since the last text block of
    /// the same kind, that block first gains a paragraph break (a doubled
    /// newline in its markdown source).
    pub fn ensure_last_block_type(&mut self, block: MessageBlock) -> (created: bool)
        requires
            old(self).spec_wf(),
            spec_block_wf(block),
        ensures
            final(self).spec_wf(),
            !final(self).needs_paragraph_break_after_hidden_tool,
            final(self).transcript.active_message is Some,
            final(self).transcript.committed_messages == old(self).transcript.committed_messages,
            final(self).pending_history_lines == old(self).pending_history_lines,
            final(self).deferred_history_lines == old(self).deferred_history_lines,
            // The message now ends in a block of the requested kind; it was
            // appended exactly when the previous last block had another
            // kind (or there was none).
            created ==> final(self).transcript.active_message->0.blocks@.last() == block,
    {
        self.ensure_active_message();
        let current_block_type: Option<LastBlockType> = match &block {
            MessageBlock::PlainText(_) => Some(LastBlockType::PlainText),
            MessageBlock::Thinking(_) => Some(LastBlockType::Thinking),
            _ => None,
        };
        let mut taken: Option<LiveMessage> = None;
        core::mem::swap(&mut taken, &mut self.transcript.active_message);
        let mut m = match taken {
            Some(m) => m,
            None => LiveMessage::new(),
        };
        // Apply the pending paragraph break when the incoming block has the
        // same kind as the block that preceded the hidden tool.
        if self.needs_paragraph_break_after_hidden_tool {
            let same = match (self.last_block_type_for_hidden_tool, current_block_type) {
                (Some(LastBlockType::PlainText), Some(LastBlockType::PlainText)) => true,
                (Some(LastBlockType::Thinking), Some(LastBlockType::Thinking)) => true,
                _ => false,
            };
            if same && m.blocks.len() > 0 {
                let last = m.blocks.len() - 1;
                let mut b = m.blocks.remove(last);
                match &mut b {
                    MessageBlock::PlainText(t) => {
                        let mut cs = chars_of_str(t.content.as_str());
                        cs.push('\n');
                        cs.push('\n');
                        t.content = string_of_chars(&cs);
                    },
                    MessageBlock::Thinking(t) => {
                        let mut cs = chars_of_str(t.content.as_str());
                        cs.push('\n');
                        cs.push('\n');
                        t.content = string_of_chars(&cs);
                    },
                    _ => {},
                }
                m.blocks.insert(last, b);
                proof {
                    assert forall|j: int|
                        0 <= j < m.blocks@.len() implies spec_block_wf(
                        #[trigger] m.blocks@[j],
                    ) by {}
                }
            }
            self.needs_paragraph_break_after_hidden_tool = false;
        }
        if matches!(current_block_type, Some(_)) {
            self.last_block_type_for_hidden_tool = current_block_type;
        }
        let needs_new_block = match (m.blocks.len(), &block) {
            (0, _) => true,
            (n, MessageBlock::PlainText(_)) => !matches!(
                &m.blocks[n - 1],
                MessageBlock::PlainText(_),
            ),
            (n, MessageBlock::Thinking(_)) => !matches!(&m.blocks[n - 1], MessageBlock::Thinking(_)),
            (n, MessageBlock::ToolUse(_)) => !matches!(&m.blocks[n - 1], MessageBlock::ToolUse(_)),
            (n, MessageBlock::UserText(_)) => !matches!(&m.blocks[n - 1], MessageBlock::UserText(_)),
        };
        if needs_new_block {
            m.blocks.push(block);
        }
        self.transcript.active_message = Some(m);
        needs_new_block
    }

    /// The animation timer runs while a spinner shows or a stream is open.
    pub fn needs_animation_timer(&self) -> (r: bool)
        ensures
            r == (!(self.spinner_state is Hidden) || self.streaming_open),
    {
        !matches!(self.spinner_state, SpinnerState::Hidden) || self.streaming_open
    }

    /// Clears the transcript, the stream state, and both history buffers.
    pub fn clear_all_messages(&mut self)
        requires
            old(self).spec_wf(),
        ensures
            final(self).spec_wf(),
            final(self).transcript.committed_messages@.len() == 0,
            final(self).transcript.active_message is None,
            final(self).pending_history_lines@.len() == 0,
            final(self).deferred_history_lines@.len() == 0,
            !final(self).streaming_open,
            final(self).spinner_state is Hidden,
            final(self).last_stream_kind is None,
            final(self).streaming_controller.text_state.queued_lines@.len() == 0,
            final(self).streaming_controller.thinking_state.queued_lines@.len() == 0,
            final(self).streaming_controller.text_state.collector.buffer@.len() == 0,
            final(self).streaming_controller.thinking_state.collector.buffer@.len() == 0,
    {
        self.transcript.clear();
        self.streaming_controller.clear();
        self.streaming_open = false;
        self.last_stream_kind = None;
        self.deferred_history_lines = Vec::new();
        self.pending_history_lines = Vec::new();
        self.spinner_state = SpinnerState::Hidden;
    }

    /// The plan's status text. Collapsed: the first unfinished item with
    /// its position. Expanded: a window of at most four items starting at
    /// the first unfinished one (leading completed items hide when the plan
    /// is long), with a hidden-count note.
    pub fn build_plan_text(&self) -> (r: Option<String>)
        ensures
            (self.plan_state is None || self.plan_state->0.entries@.len() == 0) <==> r is None,
    {
        proof {
            reveal_strlit("Plan: ");
            reveal_strlit(" (");
            reveal_strlit(" of ");
            reveal_strlit(")");
            reveal_strlit("Plan: All tasks completed (");
            reveal_strlit(" items)");
            reveal_strlit("Plan");
            reveal_strlit(" (+");
            reveal_strlit(" hidden)");
            reveal_strlit("[ ] ");
            reveal_strlit("[~] ");
            reveal_strlit("[x] ");
        }
        let plan = match &self.plan_state {
            Some(p) => p,
            None => {
                return None;
            },
        };
        let total = plan.entries.len();
        if total == 0 {
            return None;
        }
        if self.plan_expanded {
            let mut start: usize = 0;
            if total > 4 {
                while start < total && matches!(
                    plan.entries[start].status,
                    PlanItemStatus::Completed,
                ) && total - start > 4
                    invariant
                        start <= total,
                        total == plan.entries@.len(),
                    decreases total - start,
                {
                    start += 1;
                }
            }
            let end = if total - start > 4 {
                start + 4
            } else {
                total
            };
            let hidden = total - (end - start);
            let mut out = chars_of_str("Plan");
            if hidden > 0 {
                let h1 = chars_of_str(" (+");
                append_chars(&mut out, &h1);
                push_decimal(&mut out, hidden as u64);
                let h2 = chars_of_str(" hidden)");
                append_chars(&mut out, &h2);
            }
            let mut i = start;
            while i < end
                invariant
                    start <= i <= end <= total,
                    total == plan.entries@.len(),
                decreases end - i,
            {
                out.push('\n');
                let marker = match plan.entries[i].status {
                    PlanItemStatus::Pending => chars_of_str("[ ] "),
                    PlanItemStatus::InProgress => chars_of_str("[~] "),
                    PlanItemStatus::Completed => chars_of_str("[x] "),
                };
                append_chars(&mut out, &marker);
                let cc = chars_of_str(plan.entries[i].content.as_str());
                append_chars(&mut out, &cc);
                i += 1;
            }
            Some(string_of_chars(&out))
        } else {
            let mut i: usize = 0;
            while i < total
                invariant
                    i <= total,
                    self.plan_state matches Some(pp) && pp.entries@.len() == total,
                    total > 0,
                    total == plan.entries@.len(),
                    forall|j: int|
                        0 <= j < i ==> (#[trigger] plan.entries@[j]).status
                            is Completed,
                decreases total - i,
            {
                if !matches!(plan.entries[i].status, PlanItemStatus::Completed) {
                    let mut out = chars_of_str("Plan: ");
                    let cc = chars_of_str(plan.entries[i].content.as_str());
                    append_chars(&mut out, &cc);
                    let p1 = chars_of_str(" (");
                    append_chars(&mut out, &p1);
                    push_decimal(&mut out, (i + 1) as u64);
                    let p2 = chars_of_str(" of ");
                    append_chars(&mut out, &p2);
                    push_decimal(&mut out, total as u64);
                    let p3 = chars_of_str(")");
                    append_chars(&mut out, &p3);
                    return Some(string_of_chars(&out));
                }
                i += 1;
            }
            let mut out = chars_of_str("Plan: All tasks completed (");
            push_decimal(&mut out, total as u64);
            let p = chars_of_str(" items)");
            append_chars(&mut out, &p);
            Some(string_of_chars(&out))
        }
    }
    /// Recovers a missing active message.
    pub fn ensure_active_message(&mut self)
        requires
            old(self).spec_wf(),
        ensures
            final(self).spec_wf(),
            final(self).transcript.active_message is Some,
            final(self).pending_history_lines == old(self).pending_history_lines,
            final(self).deferred_history_lines == old(self).deferred_history_lines,
            final(self).streaming_controller == old(self).streaming_controller,
            final(self).last_known_width == old(self).last_known_width,
            final(self).overlay_active == old(self).overlay_active,
            final(self).streaming_open == old(self).streaming_open,
            final(self).last_stream_kind == old(self).last_stream_kind,
            final(self).transcript.committed_messages == old(self).transcript.committed_messages,
            final(self).transcript.committed_rendered_count == old(self).transcript.committed_rendered_count,
    {
        if !self.transcript.has_active_message() {
            self.transcript.start_active_message();
        }
    }

    /// Routes drained committed lines into scrollback: the open history
    /// buffer gains exactly the text lines indented followed by the
    /// thinking lines restyled and indented; any drained line on an open
    /// stream marks the active message as already streamed to scrollback.
    pub fn apply_drained_lines(&mut self, drained: DrainedLines)
        requires
            old(self).spec_wf(),
        ensures
            final(self).spec_wf(),
            final(self).last_known_width == old(self).last_known_width,
            final(self).overlay_active == old(self).overlay_active,
            final(self).streaming_open == old(self).streaming_open,
            final(self).last_stream_kind == old(self).last_stream_kind,
            final(self).streaming_controller == old(self).streaming_controller,
            !old(self).overlay_active ==> {
                &&& lines_view(final(self).pending_history_lines@) == lines_view(
                    old(self).pending_history_lines@,
                ) + spec_drained_growth(lines_view(drained.text@), lines_view(drained.thinking@))
                &&& final(self).deferred_history_lines == old(self).deferred_history_lines
                &&& final(self).pending_history_lines@.len() >= old(self).pending_history_lines@.len()
                &&& forall|j: int|
                    0 <= j < old(self).pending_history_lines@.len() ==> #[trigger] final(self).pending_history_lines@[j] == old(self).pending_history_lines@[j]
            },
            old(self).overlay_active ==> {
                &&& lines_view(final(self).deferred_history_lines@) == lines_view(
                    old(self).deferred_history_lines@,
                ) + spec_drained_growth(lines_view(drained.text@), lines_view(drained.thinking@))
                &&& final(self).pending_history_lines == old(self).pending_history_lines
            },
            (old(self).streaming_open && (drained.text@.len() > 0 || drained.thinking@.len() > 0))
                ==> (old(self).transcript.active_message matches Some(m) ==> (final(self).transcript.active_message matches Some(m2) && m2.blocks == m.blocks
                && m2.streamed_to_scrollback)),
            !(old(self).streaming_open && (drained.text@.len() > 0 || drained.thinking@.len()
                > 0)) ==> final(self).transcript == old(self).transcript,
            final(self).transcript.committed_messages == old(self).transcript.committed_messages,
            final(self).transcript.committed_rendered_count == old(self).transcript.committed_rendered_count,
    {
        let ghost text_v = lines_view(drained.text@);
        let ghost think_v = lines_view(drained.thinking@);
        let has_text = drained.text.len() > 0;
        let has_thinking = drained.thinking.len() > 0;
        let ghost pend0 = self.pending_history_lines@;
        let ghost def0 = self.deferred_history_lines@;
        if has_text {
            let indented = crate::transcript::indent_lines(drained.text);
            self.insert_or_defer_history_lines(indented);
        }
        if has_thinking {
            let styled = crate::transcript::style_thinking_lines(drained.thinking);
            let indented = crate::transcript::indent_lines(styled);
            self.insert_or_defer_history_lines(indented);
        }
        proof {
            if !has_text {
                assert(crate::transcript::spec_indent_lines_v(text_v)
                    =~= Seq::<crate::style::LineV>::empty());
            }
            if !has_thinking {
                assert(crate::transcript::spec_indent_lines_v(
                    crate::transcript::spec_think_lines_v(think_v),
                ) =~= Seq::<crate::style::LineV>::empty());
            }
            if !old(self).overlay_active {
                crate::style::lemma_lines_view_concat(pend0, self.pending_history_lines@.skip(
                    pend0.len() as int,
                ));
                assert(lines_view(self.pending_history_lines@) =~= lines_view(pend0)
                    + spec_drained_growth(text_v, think_v)) by {
                    if has_text {
                        crate::style::lemma_lines_view_concat(
                            pend0,
                            self.pending_history_lines@.subrange(
                                pend0.len() as int,
                                self.pending_history_lines@.len() as int,
                            ),
                        );
                    }
                }
            }
        }
        if self.streaming_open && (has_text || has_thinking) {
            self.mark_active_streamed();
        }
    }

    /// Marks the active message as streamed to scrollback, if one exists.
    fn mark_active_streamed(&mut self)
        requires
            old(self).spec_wf(),
        ensures
            final(self).spec_wf(),
            final(self).pending_history_lines == old(self).pending_history_lines,
            final(self).deferred_history_lines == old(self).deferred_history_lines,
            final(self).streaming_controller == old(self).streaming_controller,
            old(self).transcript.active_message matches Some(m)
                ==> (final(self).transcript.active_message matches Some(m2) && m2.blocks
                == m.blocks && m2.streamed_to_scrollback),
            old(self).transcript.active_message is None ==> final(self).transcript.active_message
                is None,
            final(self).last_known_width == old(self).last_known_width,
            final(self).overlay_active == old(self).overlay_active,
            final(self).streaming_open == old(self).streaming_open,
            final(self).last_stream_kind == old(self).last_stream_kind,
            final(self).transcript.committed_messages == old(self).transcript.committed_messages,
            final(self).transcript.committed_rendered_count == old(self).transcript.committed_rendered_count,
    {
        let mut taken: Option<LiveMessage> = None;
        core::mem::swap(&mut taken, &mut self.transcript.active_message);
        match taken {
            Some(mut m) => {
                m.streamed_to_scrollback = true;
                self.transcript.active_message = Some(m);
            },
            None => {},
        }
    }

    /// The live viewport blocks for the current stream tails: tails replace
    /// the stream-kind blocks of the active message, keeping their slots;
    /// with both tails empty, stream blocks are stripped (everything is
    /// already in scrollback).
    pub fn sync_live_stream_tails(&mut self, now_ms: u64)
        requires
            old(self).spec_wf(),
        ensures
            final(self).spec_wf(),
            final(self).pending_history_lines == old(self).pending_history_lines,
            final(self).deferred_history_lines == old(self).deferred_history_lines,
            final(self).last_known_width == old(self).last_known_width,
            final(self).overlay_active == old(self).overlay_active,
            final(self).streaming_controller == old(self).streaming_controller,
            // With both tails empty and a stream that has seen deltas, the
            // active message's pure-stream blocks are stripped (their
            // content already flowed to scrollback); with no deltas seen,
            // nothing changes.
            ({
                let c = old(self).streaming_controller;
                (crate::markdown::spec_tail(c.text_state.collector.buffer@).len() == 0
                    && crate::markdown::spec_tail(c.thinking_state.collector.buffer@).len() == 0)
                    ==> {
                    &&& ((c.text_state.has_seen_delta || c.thinking_state.has_seen_delta) ==> (old(self).transcript.active_message matches Some(m) ==> (final(self).transcript.active_message matches Some(m2) && m2.blocks@
                        == spec_non_stream_blocks(m.blocks@))))
                    &&& (!(c.text_state.has_seen_delta || c.thinking_state.has_seen_delta)
                        ==> *final(self) == *old(self))
                }
            }),
            // With a visible tail, an active message exists and carries it.
            ({
                let c = old(self).streaming_controller;
                (crate::markdown::spec_tail(c.text_state.collector.buffer@).len() > 0
                    || crate::markdown::spec_tail(c.thinking_state.collector.buffer@).len() > 0)
                    ==> final(self).transcript.active_message is Some
            }),
            final(self).transcript.committed_messages == old(self).transcript.committed_messages,
            final(self).transcript.committed_rendered_count == old(self).transcript.committed_rendered_count,
            final(self).streaming_open == old(self).streaming_open,
            final(self).last_stream_kind == old(self).last_stream_kind,
    {
        let text_tail = self.streaming_controller.tail_text(StreamKind::Text);
        let thinking_tail = self.streaming_controller.tail_text(StreamKind::Thinking);
        let text_empty = text_tail.as_str().is_empty();
        let thinking_chars = chars_of_str(thinking_tail.as_str());
        let thinking_blank = chars_is_blank(&thinking_chars);
        if text_empty && thinking_chars.len() == 0 {
            if self.streaming_controller.has_seen_any_delta() {
                self.strip_stream_blocks();
            }
            return ;
        }
        self.ensure_active_message();
        let mut taken: Option<LiveMessage> = None;
        core::mem::swap(&mut taken, &mut self.transcript.active_message);
        match taken {
            Some(mut m) => {
                let rebuilt = merge_stream_blocks(
                    m.blocks,
                    text_tail,
                    thinking_tail,
                    self.last_stream_kind,
                    now_ms,
                );
                m.blocks = rebuilt;
                self.transcript.active_message = Some(m);
            },
            None => {},
        }
    }

    /// Removes the pure-stream blocks of the active message, keeping tool
    /// and user blocks in order.
    fn strip_stream_blocks(&mut self)
        requires
            old(self).spec_wf(),
        ensures
            final(self).spec_wf(),
            final(self).pending_history_lines == old(self).pending_history_lines,
            final(self).deferred_history_lines == old(self).deferred_history_lines,
            final(self).streaming_controller == old(self).streaming_controller,
            final(self).last_known_width == old(self).last_known_width,
            final(self).overlay_active == old(self).overlay_active,
            old(self).transcript.active_message is None ==> *final(self) == *old(self),
            old(self).transcript.active_message matches Some(m) ==> (final(self).transcript.active_message matches Some(m2) && m2.blocks@ == spec_non_stream_blocks(
                m.blocks@,
            ) && m2.finalized == m.finalized && m2.streamed_to_scrollback
                == m.streamed_to_scrollback),
            final(self).transcript.committed_messages == old(self).transcript.committed_messages,
            final(self).transcript.committed_rendered_count == old(self).transcript.committed_rendered_count,
            final(self).streaming_open == old(self).streaming_open,
            final(self).last_stream_kind == old(self).last_stream_kind,
    {
        let mut taken: Option<LiveMessage> = None;
        core::mem::swap(&mut taken, &mut self.transcript.active_message);
        match taken {
            Some(mut m) => {
                let ghost orig = m.blocks@;
                let mut kept: Vec<MessageBlock> = Vec::new();
                let mut rest = m.blocks;
                let n = rest.len();
                let mut i: usize = 0;
                proof {
                    assert(orig.skip(0) =~= orig);
                }
                while i < n
                    invariant
                        i <= n,
                        orig.len() == n,
                        rest@.len() == n - i,
                        rest@ == orig.skip(i as int),
                        spec_non_stream_blocks(orig) == kept@ + spec_non_stream_blocks(
                            orig.skip(i as int),
                        ),
                        forall|j: int|
                            0 <= j < kept@.len() ==> spec_block_wf(#[trigger] kept@[j]),
                        forall|j: int|
                            0 <= j < rest@.len() ==> spec_block_wf(#[trigger] rest@[j]),
                    decreases n - i,
                {
                    let ghost prerest = rest@;
                    proof {
                        assert(prerest[0] == orig[i as int]);
                        assert(prerest.drop_first() =~= orig.skip(i + 1));
                    }
                    let b = rest.remove(0);
                    match b {
                        MessageBlock::PlainText(_) => {},
                        MessageBlock::Thinking(_) => {},
                        other => {
                            kept.push(other);
                        },
                    }
                    proof {
                        assert(spec_non_stream_blocks(orig) =~= kept@ + spec_non_stream_blocks(
                            orig.skip(i + 1),
                        ));
                    }
                    i += 1;
                }
                proof {
                    assert(orig.skip(n as int) =~= Seq::<MessageBlock>::empty());
                    assert(kept@ =~= spec_non_stream_blocks(orig));
                }
                m.blocks = kept;
                self.transcript.active_message = Some(m);
            },
            None => {},
        }
    }

    /// One streamed text delta. A delta before the stream opened recovers by
    /// starting a message; one after it closed is dropped whole. On an open
    /// stream, a switch away from thinking first flushes the thinking
    /// stream into scrollback (followed by exactly one blank separator
    /// line), then the delta feeds the text stream.
    pub fn queue_text_delta(&mut self, content: &str, now_ms: u64)
        requires
            old(self).spec_wf(),
        ensures
            final(self).spec_wf(),
            // A late delta on a closed stream with a live message changes
            // nothing.
            (!old(self).streaming_open && old(self).transcript.active_message is Some) ==> *final(self) == *old(self),
            // A pre-start delta recovers: the stream opens on a fresh
            // message and the delta alone fills the text stream.
            (!old(self).streaming_open && old(self).transcript.active_message is None) ==> {
                &&& final(self).streaming_open
                &&& final(self).transcript.active_message is Some
                &&& final(self).last_stream_kind == Some(StreamKind::Text)
                &&& final(self).streaming_controller.text_state.collector.buffer@ == content@
            },
            // Open stream: the text stream gains exactly this delta, the
            // kind is recorded, and a departing thinking stream is flushed
            // with its single blank separator.
            old(self).streaming_open ==> {
                &&& final(self).streaming_open
                &&& final(self).last_stream_kind == Some(StreamKind::Text)
                &&& (content@.len() > 0 ==> {
                    &&& final(self).streaming_controller.text_state.collector.buffer@ == old(self).streaming_controller.text_state.collector.buffer@ + content@
                    &&& final(self).streaming_controller.text_state.has_seen_delta
                })
                &&& (content@.len() == 0 ==> final(self).streaming_controller.text_state == old(self).streaming_controller.text_state)
                &&& (old(self).last_stream_kind == Some(StreamKind::Thinking) ==> ({
                    let st = old(self).streaming_controller.spec_state_of(StreamKind::Thinking);
                    &&& final(self).streaming_controller.thinking_state.collector.buffer@.len() == 0
                    &&& final(self).streaming_controller.thinking_state.queued_lines@.len() == 0
                    &&& (!old(self).overlay_active ==> lines_view(
                        final(self).pending_history_lines@,
                    ) == lines_view(old(self).pending_history_lines@) + spec_flush_growth(
                        st,
                        StreamKind::Thinking,
                    ) && final(self).deferred_history_lines == old(self).deferred_history_lines)
                    &&& (old(self).overlay_active ==> lines_view(
                        final(self).deferred_history_lines@,
                    ) == lines_view(old(self).deferred_history_lines@) + spec_flush_growth(
                        st,
                        StreamKind::Thinking,
                    ) && final(self).pending_history_lines == old(self).pending_history_lines)
                    &&& (spec_flush_lines(st).len() > 0 ==> (old(self).transcript.active_message matches Some(m) ==> (final(self).transcript.active_message matches Some(m2) && m2.blocks == m.blocks
                        && m2.streamed_to_scrollback)))
                }))
                &&& (old(self).last_stream_kind != Some(StreamKind::Thinking) ==> {
                    &&& final(self).pending_history_lines == old(self).pending_history_lines
                    &&& final(self).deferred_history_lines == old(self).deferred_history_lines
                    &&& final(self).transcript == old(self).transcript
                    &&& final(self).streaming_controller.thinking_state == old(self).streaming_controller.thinking_state
                })
            },
    {
        if !self.streaming_open {
            if !self.transcript.has_active_message() {
                self.start_new_message(0, now_ms);
                self.last_stream_kind = Some(StreamKind::Text);
                self.streaming_controller.push(StreamKind::Text, content, now_ms);
                proof {
                    assert(self.streaming_controller.text_state.collector.buffer@
                        =~= content@);
                }
                return ;
            } else {
                return ;
            }
        }
        if matches!(self.last_stream_kind, Some(StreamKind::Thinking)) {
            self.flush_kind_to_history(StreamKind::Thinking, now_ms);
        }
        self.last_stream_kind = Some(StreamKind::Text);
        self.streaming_controller.push(StreamKind::Text, content, now_ms);
    }

    /// One streamed thinking delta; symmetric to `queue_text_delta`.
    pub fn queue_thinking_delta(&mut self, content: &str, now_ms: u64)
        requires
            old(self).spec_wf(),
        ensures
            final(self).spec_wf(),
            (!old(self).streaming_open && old(self).transcript.active_message is Some) ==> *final(self) == *old(self),
            (!old(self).streaming_open && old(self).transcript.active_message is None) ==> {
                &&& final(self).streaming_open
                &&& final(self).transcript.active_message is Some
                &&& final(self).last_stream_kind == Some(StreamKind::Thinking)
                &&& final(self).streaming_controller.thinking_state.collector.buffer@ == content@
            },
            old(self).streaming_open ==> {
                &&& final(self).streaming_open
                &&& final(self).last_stream_kind == Some(StreamKind::Thinking)
                &&& (content@.len() > 0 ==> {
                    &&& final(self).streaming_controller.thinking_state.collector.buffer@ == old(self).streaming_controller.thinking_state.collector.buffer@ + content@
                    &&& final(self).streaming_controller.thinking_state.has_seen_delta
                })
                &&& (content@.len() == 0 ==> final(self).streaming_controller.thinking_state
                    == old(self).streaming_controller.thinking_state)
                &&& (old(self).last_stream_kind == Some(StreamKind::Text) ==> ({
                    let st = old(self).streaming_controller.spec_state_of(StreamKind::Text);
                    &&& final(self).streaming_controller.text_state.collector.buffer@.len() == 0
                    &&& final(self).streaming_controller.text_state.queued_lines@.len() == 0
                    &&& (!old(self).overlay_active ==> lines_view(
                        final(self).pending_history_lines@,
                    ) == lines_view(old(self).pending_history_lines@) + spec_flush_growth(
                        st,
                        StreamKind::Text,
                    ) && final(self).deferred_history_lines == old(self).deferred_history_lines)
                    &&& (old(self).overlay_active ==> lines_view(
                        final(self).deferred_history_lines@,
                    ) == lines_view(old(self).deferred_history_lines@) + spec_flush_growth(
                        st,
                        StreamKind::Text,
                    ) && final(self).pending_history_lines == old(self).pending_history_lines)
                    &&& (spec_flush_lines(st).len() > 0 ==> (old(self).transcript.active_message matches Some(m) ==> (final(self).transcript.active_message matches Some(m2) && m2.blocks == m.blocks
                        && m2.streamed_to_scrollback)))
                }))
                &&& (old(self).last_stream_kind != Some(StreamKind::Text) ==> {
                    &&& final(self).pending_history_lines == old(self).pending_history_lines
                    &&& final(self).deferred_history_lines == old(self).deferred_history_lines
                    &&& final(self).transcript == old(self).transcript
                    &&& final(self).streaming_controller.text_state == old(self).streaming_controller.text_state
                })
            },
    {
        if !self.streaming_open {
            if !self.transcript.has_active_message() {
                self.start_new_message(0, now_ms);
                self.last_stream_kind = Some(StreamKind::Thinking);
                self.streaming_controller.push(StreamKind::Thinking, content, now_ms);
                proof {
                    assert(self.streaming_controller.thinking_state.collector.buffer@
                        =~= content@);
                }
                return ;
            } else {
                return ;
            }
        }
        if matches!(self.last_stream_kind, Some(StreamKind::Text)) {
            self.flush_kind_to_history(StreamKind::Text, now_ms);
        }
        self.last_stream_kind = Some(StreamKind::Thinking);
        self.streaming_controller.push(StreamKind::Thinking, content, now_ms);
    }

    /// Flushes one stream kind into scrollback. It emits exactly when the
    /// kind's finalize-and-drain yields lines; those lines (indented, and
    /// restyled for thinking) are followed by exactly one blank separator
    /// line, and the active message is marked as streamed.
    pub fn flush_kind_to_history(&mut self, kind: StreamKind, now_ms: u64) -> (emitted: bool)
        requires
            old(self).spec_wf(),
        ensures
            final(self).spec_wf(),
            emitted <==> spec_flush_lines(
                old(self).streaming_controller.spec_state_of(kind),
            ).len() > 0,
            // The kind's stream is finalized either way; the other kind and
            // the policy stay put.
            final(self).streaming_controller.spec_state_of(kind).collector.buffer@.len() == 0,
            final(self).streaming_controller.spec_state_of(kind).queued_lines@.len() == 0,
            ({
                let other = (match kind {
                    StreamKind::Text => StreamKind::Thinking,
                    StreamKind::Thinking => StreamKind::Text,
                });
                final(self).streaming_controller.spec_state_of(other) == old(self).streaming_controller.spec_state_of(other)
            }),
            final(self).streaming_controller.policy == old(self).streaming_controller.policy,
            // No emission: history and transcript stay put.
            !emitted ==> {
                &&& final(self).pending_history_lines == old(self).pending_history_lines
                &&& final(self).deferred_history_lines == old(self).deferred_history_lines
                &&& final(self).transcript == old(self).transcript
            },
            // Emission appends exactly the flush growth to the open buffer.
            emitted && !old(self).overlay_active ==> {
                &&& final(self).deferred_history_lines == old(self).deferred_history_lines
                &&& lines_view(final(self).pending_history_lines@) == lines_view(
                    old(self).pending_history_lines@,
                ) + spec_flush_growth(old(self).streaming_controller.spec_state_of(kind), kind)
                &&& spec_line_is_blank(final(self).pending_history_lines@.last()@)
                &&& final(self).pending_history_lines@.last()@.spans.len() == 0
                &&& ({
                    // Exactly one blank separator: when the stream's own
                    // rendering ended on content, the line just before the
                    // appended blank is not blank.
                    let st = old(self).streaming_controller.spec_state_of(kind);
                    let src = (if st.collector.buffer@.len() > 0 && st.collector.buffer@.last()
                        == '\n' {
                        st.collector.buffer@
                    } else {
                        st.collector.buffer@.push('\n')
                    });
                    let rendered = crate::markdown::spec_rendered(src, st.collector.width);
                    let end = crate::markdown::spec_strip_end(
                        rendered,
                        st.collector.committed_line_count as int,
                    );
                    st.collector.committed_line_count < end ==> !spec_line_is_blank(
                        final(self).pending_history_lines@[final(self).pending_history_lines@.len() - 2]@,
                    )
                })
            },
            emitted && old(self).overlay_active ==> {
                &&& final(self).pending_history_lines == old(self).pending_history_lines
                &&& lines_view(final(self).deferred_history_lines@) == lines_view(
                    old(self).deferred_history_lines@,
                ) + spec_flush_growth(old(self).streaming_controller.spec_state_of(kind), kind)
            },
            // Emission marks the active message as already streamed.
            emitted ==> (old(self).transcript.active_message matches Some(m) ==> (final(self).transcript.active_message matches Some(m2) && m2.blocks == m.blocks
                && m2.streamed_to_scrollback)),
            final(self).last_known_width == old(self).last_known_width,
            final(self).overlay_active == old(self).overlay_active,
            final(self).streaming_open == old(self).streaming_open,
            final(self).last_stream_kind == old(self).last_stream_kind,
    {
        let ghost st0 = old(self).streaming_controller.spec_state_of(kind);
        let flushed = self.streaming_controller.flush_kind(kind, now_ms);
        proof {
            assert(lines_view(flushed@) =~= spec_flush_lines(st0));
        }
        if flushed.len() == 0 {
            return false;
        }
        let lines = match kind {
            StreamKind::Text => crate::transcript::indent_lines(flushed),
            StreamKind::Thinking => {
                let styled = crate::transcript::style_thinking_lines(flushed);
                crate::transcript::indent_lines(styled)
            },
        };
        let ghost flushed_v = spec_flush_lines(st0);
        proof {
            crate::markdown::lemma_strip_end_last(
                crate::markdown::spec_rendered(
                    (if st0.collector.buffer@.len() > 0 && st0.collector.buffer@.last() == '\n' {
                        st0.collector.buffer@
                    } else {
                        st0.collector.buffer@.push('\n')
                    }),
                    st0.collector.width,
                ),
                st0.collector.committed_line_count as int,
            );
        }
        let ghost pend0 = self.pending_history_lines@;
        let ghost def0 = self.deferred_history_lines@;
        let ghost lines_v = lines@;
        proof {
            assert(lines@.len() == flushed_v.len());
        }
        self.insert_or_defer_history_lines(lines);
        let mut sep: Vec<StyledLine> = Vec::new();
        sep.push(StyledLine::empty());
        let ghost sep_v = sep@;
        self.insert_or_defer_history_lines(sep);
        self.mark_active_streamed();
        proof {
            assert(sep_v[0]@.spans =~= Seq::<crate::style::SpanV>::empty());
            assert(sep_v[0]@ == spec_blank_line_v());
            assert(lines_view(lines_v) == (match kind {
                StreamKind::Text => crate::transcript::spec_indent_lines_v(flushed_v),
                StreamKind::Thinking => crate::transcript::spec_indent_lines_v(
                    crate::transcript::spec_think_lines_v(flushed_v),
                ),
            }));
            if !old(self).overlay_active {
                assert(self.pending_history_lines@ == pend0 + lines_v + sep_v);
                crate::style::lemma_lines_view_concat(pend0 + lines_v, sep_v);
                crate::style::lemma_lines_view_concat(pend0, lines_v);
                assert(lines_view(sep_v) =~= seq![spec_blank_line_v()]);
                assert(lines_view(self.pending_history_lines@) =~= lines_view(pend0)
                    + spec_flush_growth(st0, kind));
                let n = self.pending_history_lines@.len();
                assert(self.pending_history_lines@[n - 1] == sep_v[0]);
                assert(lines_v.len() >= 1);
                assert(self.pending_history_lines@[n - 2] == lines_v[lines_v.len() - 1]);
                let st = st0;
                let src = (if st.collector.buffer@.len() > 0 && st.collector.buffer@.last()
                    == '\n' {
                    st.collector.buffer@
                } else {
                    st.collector.buffer@.push('\n')
                });
                let rendered = crate::markdown::spec_rendered(src, st.collector.width);
                let end = crate::markdown::spec_strip_end(
                    rendered,
                    st.collector.committed_line_count as int,
                );
                if st.collector.committed_line_count < end {
                    assert(flushed_v.last() == rendered[end - 1]);
                    assert(!spec_line_is_blank(flushed_v.last()));
                    assert(!spec_line_is_blank(lines_v[lines_v.len() - 1]@));
                }
            } else {
                assert(self.deferred_history_lines@ == def0 + lines_v + sep_v);
                crate::style::lemma_lines_view_concat(def0 + lines_v, sep_v);
                crate::style::lemma_lines_view_concat(def0, lines_v);
                assert(lines_view(sep_v) =~= seq![spec_blank_line_v()]);
                assert(lines_view(self.deferred_history_lines@) =~= lines_view(def0)
                    + spec_flush_growth(st0, kind));
            }
        }
        true
    }

    /// Opens a new assistant turn: pending stream output is flushed, the
    /// previous active message commits (if it has content), a fresh one
    /// begins, and the loading spinner shows.
    pub fn start_new_message(&mut self, request_id: u64, now_ms: u64)
        requires
            old(self).spec_wf(),
        ensures
            final(self).spec_wf(),
            final(self).streaming_open,
            final(self).last_stream_kind is None,
            final(self).transcript.active_message is Some,
            final(self).transcript.active_message->0.blocks@.len() == 0,
            final(self).spinner_state is Loading,
            final(self).streaming_controller.text_state.collector.buffer@.len() == 0,
            final(self).streaming_controller.thinking_state.collector.buffer@.len() == 0,
            final(self).streaming_controller.text_state.queued_lines@.len() == 0,
            final(self).streaming_controller.thinking_state.queued_lines@.len() == 0,
            !final(self).streaming_controller.text_state.has_seen_delta,
            !final(self).streaming_controller.thinking_state.has_seen_delta,
    {
        let pending = self.streaming_controller.flush_pending_at(now_ms);
        self.apply_drained_lines(pending);
        self.sync_live_stream_tails(now_ms);
        self.spinner_state = SpinnerState::Loading { start_ms: now_ms };
        self.streaming_controller.clear();
        self.last_stream_kind = None;
        self.transcript.start_active_message();
        self.streaming_open = true;
    }

    /// Starts a tool block. Any in-progress stream output is flushed first
    /// and followed by exactly one blank separator line, so the tool header
    /// never merges with streamed text above it.
    pub fn start_tool_use_block(&mut self, name: String, id: String, now_ms: u64)
        requires
            old(self).spec_wf(),
        ensures
            final(self).spec_wf(),
            final(self).transcript.active_message matches Some(m) && m.blocks@.len() > 0 && (
            m.blocks@.last() matches MessageBlock::ToolUse(t) && t.name@ == name@ && t.id@ == id@
                && t.status is Pending),
    {
        self.hide_loading_spinner_if_active();
        if matches!(self.last_stream_kind, Some(_)) {
            let a = self.flush_kind_to_history(StreamKind::Text, now_ms);
            let b = self.flush_kind_to_history(StreamKind::Thinking, now_ms);
            if a || b {
            }
            self.last_stream_kind = None;
        }
        self.ensure_active_message();
        let mut taken: Option<LiveMessage> = None;
        core::mem::swap(&mut taken, &mut self.transcript.active_message);
        match taken {
            Some(mut m) => {
                m.blocks.push(MessageBlock::ToolUse(ToolUseBlock::new(name, id)));
                self.transcript.active_message = Some(m);
            },
            None => {
                let mut m = LiveMessage::new();
                m.blocks.push(MessageBlock::ToolUse(ToolUseBlock::new(name, id)));
                self.transcript.active_message = Some(m);
            },
        }
    }

    /// Streams a parameter update into the first tool block with this id
    /// (appending to an existing parameter or recording a new one);
    /// siblings stay put, and updates for unknown ids or without an active
    /// message are dropped.
    pub fn add_or_update_tool_parameter(&mut self, tool_id: &str, name: String, value: String)
        requires
            old(self).spec_wf(),
        ensures
            final(self).spec_wf(),
            renderer_frame_but_active(*old(self), *final(self)),
            old(self).transcript.active_message is None ==> *final(self) == *old(self),
            old(self).transcript.active_message matches Some(m) ==> (final(self).transcript.active_message matches Some(m2) && {
                &&& m2.finalized == m.finalized
                &&& m2.streamed_to_scrollback == m.streamed_to_scrollback
                &&& (match crate::message::spec_tool_index(m.blocks@, tool_id@) {
                    Some(i) => {
                        &&& m2.blocks@.len() == m.blocks@.len()
                        &&& (forall|j: int|
                            0 <= j < m.blocks@.len() && j != i ==> #[trigger] m2.blocks@[j]
                                == m.blocks@[j])
                        &&& (m.blocks@[i] matches MessageBlock::ToolUse(t)
                            ==> (m2.blocks@[i] matches MessageBlock::ToolUse(t2) && {
                            &&& t2.name == t.name
                            &&& t2.id == t.id
                            &&& t2.status == t.status
                            &&& t2.status_message == t.status_message
                            &&& t2.output == t.output
                            &&& (match crate::message::spec_param_index(t.parameters@, name@) {
                                Some(p) => {
                                    &&& t2.parameters@.len() == t.parameters@.len()
                                    &&& t2.parameters@[p].value.value@ == t.parameters@[
                                        p
                                    ].value.value@ + value@
                                },
                                None => {
                                    &&& t2.parameters@.len() == t.parameters@.len() + 1
                                    &&& t2.parameters@.last().name@ == name@
                                    &&& t2.parameters@.last().value.value@ == value@
                                },
                            })
                        }))
                    },
                    None => m2.blocks == m.blocks,
                })
            }),
    {
        let mut taken: Option<LiveMessage> = None;
        core::mem::swap(&mut taken, &mut self.transcript.active_message);
        match taken {
            Some(mut m) => {
                match m.find_tool_block(tool_id) {
                    Some(i) => {
                        let mut b = m.blocks.remove(i);
                        match &mut b {
                            MessageBlock::ToolUse(t) => {
                                t.add_or_update_parameter(name, value);
                            },
                            _ => {},
                        }
                        m.blocks.insert(i, b);
                        proof {
                            assert forall|j: int|
                                0 <= j < m.blocks@.len() implies spec_block_wf(
                                #[trigger] m.blocks@[j],
                            ) by {}
                        }
                    },
                    None => {},
                }
                self.transcript.active_message = Some(m);
            },
            None => {},
        }
    }

    /// Replaces the status, status message and output of the first tool
    /// block with this id; siblings stay put, and updates for unknown ids
    /// or without an active message are dropped.
    pub fn update_tool_status(
        &mut self,
        tool_id: &str,
        status: ToolStatus,
        message: Option<String>,
        output: Option<String>,
    )
        requires
            old(self).spec_wf(),
        ensures
            final(self).spec_wf(),
            renderer_frame_but_active(*old(self), *final(self)),
            old(self).transcript.active_message is None ==> *final(self) == *old(self),
            old(self).transcript.active_message matches Some(m) ==> (final(self).transcript.active_message matches Some(m2) && {
                &&& m2.finalized == m.finalized
                &&& m2.streamed_to_scrollback == m.streamed_to_scrollback
                &&& (match crate::message::spec_tool_index(m.blocks@, tool_id@) {
                    Some(i) => {
                        &&& m2.blocks@.len() == m.blocks@.len()
                        &&& (forall|j: int|
                            0 <= j < m.blocks@.len() && j != i ==> #[trigger] m2.blocks@[j]
                                == m.blocks@[j])
                        &&& (m.blocks@[i] matches MessageBlock::ToolUse(t)
                            ==> (m2.blocks@[i] matches MessageBlock::ToolUse(t2) && {
                            &&& t2.name == t.name
                            &&& t2.id == t.id
                            &&& t2.parameters == t.parameters
                            &&& t2.status == status
                            &&& t2.status_message == message
                            &&& t2.output == output
                        }))
                    },
                    None => m2.blocks == m.blocks,
                })
            }),
    {
        let mut taken: Option<LiveMessage> = None;
        core::mem::swap(&mut taken, &mut self.transcript.active_message);
        match taken {
            Some(mut m) => {
                match m.find_tool_block(tool_id) {
                    Some(i) => {
                        let mut b = m.blocks.remove(i);
                        match &mut b {
                            MessageBlock::ToolUse(t) => {
                                t.status = status;
                                t.status_message = message;
                                t.output = output;
                            },
                            _ => {},
                        }
                        m.blocks.insert(i, b);
                        proof {
                            assert forall|j: int|
                                0 <= j < m.blocks@.len() implies spec_block_wf(
                                #[trigger] m.blocks@[j],
                            ) by {}
                        }
                    },
                    None => {},
                }
                self.transcript.active_message = Some(m);
            },
            None => {},
        }
    }

    /// Appends streamed output to the first tool block with this id;
    /// siblings stay put, and updates for unknown ids or without an active
    /// message are dropped.
    pub fn append_tool_output(&mut self, tool_id: &str, chunk: &str)
        requires
            old(self).spec_wf(),
        ensures
            final(self).spec_wf(),
            renderer_frame_but_active(*old(self), *final(self)),
            old(self).transcript.active_message is None ==> *final(self) == *old(self),
            old(self).transcript.active_message matches Some(m) ==> (final(self).transcript.active_message matches Some(m2) && {
                &&& m2.finalized == m.finalized
                &&& m2.streamed_to_scrollback == m.streamed_to_scrollback
                &&& (match crate::message::spec_tool_index(m.blocks@, tool_id@) {
                    Some(i) => {
                        &&& m2.blocks@.len() == m.blocks@.len()
                        &&& (forall|j: int|
                            0 <= j < m.blocks@.len() && j != i ==> #[trigger] m2.blocks@[j]
                                == m.blocks@[j])
                        &&& (m.blocks@[i] matches MessageBlock::ToolUse(t)
                            ==> (m2.blocks@[i] matches MessageBlock::ToolUse(t2) && {
                            &&& t2.name == t.name
                            &&& t2.id == t.id
                            &&& t2.parameters == t.parameters
                            &&& t2.status == t.status
                            &&& t2.status_message == t.status_message
                            &&& t2.output matches Some(o) && o@ == (match t.output {
                                Some(prev) => prev@ + chunk@,
                                None => chunk@,
                            })
                        }))
                    },
                    None => m2.blocks == m.blocks,
                })
            }),
    {
        let mut taken: Option<LiveMessage> = None;
        core::mem::swap(&mut taken, &mut self.transcript.active_message);
        match taken {
            Some(mut m) => {
                match m.find_tool_block(tool_id) {
                    Some(i) => {
                        let mut b = m.blocks.remove(i);
                        match &mut b {
                            MessageBlock::ToolUse(t) => {
                                let mut cs = match &t.output {
                                    Some(o) => chars_of_str(o.as_str()),
                                    None => Vec::new(),
                                };
                                let add = chars_of_str(chunk);
                                append_chars(&mut cs, &add);
                                t.output = Some(string_of_chars(&cs));
                            },
                            _ => {},
                        }
                        m.blocks.insert(i, b);
                        proof {
                            assert forall|j: int|
                                0 <= j < m.blocks@.len() implies spec_block_wf(
                                #[trigger] m.blocks@[j],
                            ) by {}
                        }
                    },
                    None => {},
                }
                self.transcript.active_message = Some(m);
            },
            None => {},
        }
    }

    /// Flushes all stream output and closes the stream: the open history
    /// buffer gains both kinds' remaining lines (text then thinking, no
    /// separators) and the controller is fully drained.
    pub fn flush_streaming_pending(&mut self, now_ms: u64)
        requires
            old(self).spec_wf(),
        ensures
            final(self).spec_wf(),
            !final(self).streaming_open,
            final(self).streaming_controller.text_state.collector.buffer@.len() == 0,
            final(self).streaming_controller.thinking_state.collector.buffer@.len() == 0,
            final(self).streaming_controller.text_state.queued_lines@.len() == 0,
            final(self).streaming_controller.thinking_state.queued_lines@.len() == 0,
            final(self).streaming_controller.policy.spec_mode() is Smooth,
            !old(self).overlay_active ==> {
                &&& lines_view(final(self).pending_history_lines@) == lines_view(
                    old(self).pending_history_lines@,
                ) + spec_drained_growth(
                    spec_flush_lines(old(self).streaming_controller.text_state),
                    spec_flush_lines(old(self).streaming_controller.thinking_state),
                )
                &&& final(self).deferred_history_lines == old(self).deferred_history_lines
            },
            old(self).overlay_active ==> {
                &&& lines_view(final(self).deferred_history_lines@) == lines_view(
                    old(self).deferred_history_lines@,
                ) + spec_drained_growth(
                    spec_flush_lines(old(self).streaming_controller.text_state),
                    spec_flush_lines(old(self).streaming_controller.thinking_state),
                )
                &&& final(self).pending_history_lines == old(self).pending_history_lines
            },
            final(self).last_known_width == old(self).last_known_width,
            final(self).overlay_active == old(self).overlay_active,
            final(self).transcript.committed_messages == old(self).transcript.committed_messages,
            final(self).transcript.committed_rendered_count == old(self).transcript.committed_rendered_count,
            final(self).last_stream_kind == old(self).last_stream_kind,
    {
        let flushed = self.streaming_controller.flush_pending_at(now_ms);
        proof {
            assert(lines_view(flushed.text@) =~= spec_flush_lines(
                old(self).streaming_controller.text_state,
            ));
            assert(lines_view(flushed.thinking@) =~= spec_flush_lines(
                old(self).streaming_controller.thinking_state,
            ));
        }
        self.apply_drained_lines(flushed);
        self.sync_live_stream_tails(now_ms);
        self.streaming_open = false;
    }

    /// Appends a user message: the active stream finalizes first so
    /// chronological order is preserved, then the user text joins the
    /// committed history and the pending-message status clears.
    pub fn add_user_message(&mut self, content: &str, now_ms: u64)
        requires
            old(self).spec_wf(),
        ensures
            final(self).spec_wf(),
            final(self).transcript.committed_messages@.len() > 0,
            final(self).transcript.committed_messages@.last().blocks@.len() == 1,
            final(self).transcript.committed_messages@.last().blocks@[0]
                matches MessageBlock::UserText(t) && t.content@ == content@,
            final(self).pending_user_message is None,
            // Chronological order: every earlier committed message keeps its
            // place, the finalized assistant message (if any) sits before
            // the user message, and everything before the user message has
            // already been rendered into history when this call returns.
            forall|j: int|
                0 <= j < old(self).transcript.committed_messages@.len() ==> #[trigger] final(self).transcript.committed_messages@[j] == old(self).transcript.committed_messages@[j],
            final(self).transcript.committed_messages@.len() <= old(self).transcript.committed_messages@.len() + 2,
            final(self).transcript.committed_rendered_count == final(self).transcript.committed_messages@.len() - 1,
            // Stream state is cleared so no phantom tail survives.
            !final(self).streaming_open,
            final(self).last_stream_kind is None,
            final(self).streaming_controller.text_state.collector.buffer@.len() == 0,
            final(self).streaming_controller.thinking_state.collector.buffer@.len() == 0,
            final(self).streaming_controller.text_state.queued_lines@.len() == 0,
            final(self).streaming_controller.thinking_state.queued_lines@.len() == 0,
            final(self).transcript.active_message is None,
    {
        self.flush_streaming_pending(now_ms);
        self.transcript.finalize_active_if_content();
        self.streaming_controller.clear();
        self.last_stream_kind = None;
        let w = self.last_known_width;
        self.flush_new_finalized_messages(w);
        let mut user_message = LiveMessage::new();
        let mut block = PlainTextBlock::new();
        block.content = string_of_chars(&chars_of_str(content));
        user_message.blocks.push(MessageBlock::UserText(block));
        user_message.finalized = true;
        self.transcript.push_committed_message(user_message);
        self.pending_user_message = None;
    }

    /// Appends an instruction (system) message to the committed history.
    pub fn add_instruction_message(&mut self, content: &str)
        requires
            old(self).spec_wf(),
        ensures
            final(self).spec_wf(),
            final(self).transcript.committed_messages@.len() == old(self).transcript.committed_messages@.len() + 1,
            final(self).transcript.committed_messages@.last().blocks@.len() == 1,
            final(self).transcript.committed_messages@.last().blocks@[0]
                matches MessageBlock::PlainText(t) && t.content@ == content@,
    {
        let mut m = LiveMessage::new();
        let mut block = PlainTextBlock::new();
        block.content = string_of_chars(&chars_of_str(content));
        m.blocks.push(MessageBlock::PlainText(block));
        m.finalized = true;
        self.transcript.push_committed_message(m);
    }

    /// Renders newly committed messages into history lines. A message whose
    /// streamed content already went to scrollback contributes only its
    /// tool and user blocks, followed by exactly one trailing blank line;
    /// other messages render whole, blank-separated from each other.
    pub fn flush_new_finalized_messages(&mut self, width: u16)
        requires
            old(self).spec_wf(),
        ensures
            final(self).spec_wf(),
            final(self).transcript.committed_rendered_count == final(self).transcript.committed_messages@.len(),
            final(self).last_known_width == old(self).last_known_width,
            final(self).transcript.committed_messages == old(self).transcript.committed_messages,
            final(self).transcript.active_message == old(self).transcript.active_message,
            final(self).streaming_controller == old(self).streaming_controller,
            final(self).streaming_open == old(self).streaming_open,
            final(self).last_stream_kind == old(self).last_stream_kind,
            final(self).overlay_active == old(self).overlay_active,
            final(self).pending_user_message == old(self).pending_user_message,
            old(self).overlay_active ==> final(self).pending_history_lines == old(self).pending_history_lines,
            !old(self).overlay_active ==> {
                &&& final(self).deferred_history_lines == old(self).deferred_history_lines
                &&& final(self).pending_history_lines@.len() >= old(self).pending_history_lines@.len()
                &&& forall|j: int|
                    0 <= j < old(self).pending_history_lines@.len() ==> #[trigger] final(self).pending_history_lines@[j] == old(self).pending_history_lines@[j]
            },
            // A wholly streamed history with no tool or user blocks is not
            // re-emitted: with nothing new to draw the buffers stay put.
            old(self).transcript.committed_rendered_count == old(self).transcript.committed_messages@.len() ==> {
                &&& final(self).pending_history_lines == old(self).pending_history_lines
                &&& final(self).deferred_history_lines == old(self).deferred_history_lines
            },
    {
        let n = self.transcript.unrendered_committed_count();
        if n == 0 {
            self.transcript.mark_committed_as_rendered();
            return ;
        }
        let mut lines: Vec<StyledLine> = Vec::new();
        let mut i = self.transcript.committed_rendered_count;
        let total = self.transcript.committed_messages.len();
        while i < total
            invariant
                i <= total,
                total == self.transcript.committed_messages@.len(),
                self.spec_wf(),
            decreases total - i,
        {
            proof {
                assert(crate::message::spec_message_wf(
                    self.transcript.committed_messages@[i as int],
                ));
            }
            let streamed = self.transcript.committed_messages[i].streamed_to_scrollback;
            if streamed {
                let tool_lines = crate::transcript::message_history_lines(
                    &self.transcript.committed_messages[i],
                    width,
                    self.terminal_bg,
                    true,
                );
                if tool_lines.len() > 0 {
                    append_lines(&mut lines, tool_lines);
                    lines.push(StyledLine::empty());
                }
            } else {
                if lines.len() > 0 {
                    lines.push(StyledLine::empty());
                }
                let all_lines = crate::transcript::message_history_lines(
                    &self.transcript.committed_messages[i],
                    width,
                    self.terminal_bg,
                    false,
                );
                append_lines(&mut lines, all_lines);
            }
            i += 1;
        }
        self.insert_or_defer_history_lines(lines);
        self.transcript.mark_committed_as_rendered();
    }

    /// One frame's preparation: set the stream width, run one commit tick,
    /// flush deferred history when no overlay is open, and render newly
    /// committed messages.
    pub fn prepare(&mut self, width: u16, screen_height: u16, now_ms: u64)
        requires
            old(self).spec_wf(),
        ensures
            final(self).spec_wf(),
            final(self).last_known_width == width,
            final(self).transcript.committed_rendered_count == final(self).transcript.committed_messages@.len(),
            // While the overlay is open, the pending buffer never grows;
            // everything defers.
            old(self).overlay_active ==> final(self).pending_history_lines == old(self).pending_history_lines,
            // With no overlay, the deferred lines all move out (they join
            // the pending buffer in their original order, per
            // `flush_deferred_history_lines`), and the previously pending
            // lines keep their places.
            !old(self).overlay_active ==> {
                &&& final(self).deferred_history_lines@.len() == 0
                &&& final(self).pending_history_lines@.len() >= old(self).pending_history_lines@.len()
                &&& forall|j: int|
                    0 <= j < old(self).pending_history_lines@.len() ==> #[trigger] final(self).pending_history_lines@[j] == old(self).pending_history_lines@[j]
            },
    {
        self.last_known_width = width;
        let stream_width = if width > 2 {
            (width - 2) as usize
        } else {
            1
        };
        self.streaming_controller.set_width(Some(stream_width));
        let drained = self.streaming_controller.drain_commit_tick_at(now_ms);
        self.apply_drained_lines(drained);
        self.sync_live_stream_tails(now_ms);
        if !self.overlay_active {
            self.flush_deferred_history_lines();
        }
        self.flush_new_finalized_messages(width);
    }
}

/// Fields untouched by the history-buffer operations.
pub open spec fn self_frame_status(a: TerminalRenderer, b: TerminalRenderer) -> bool {
    &&& b.pending_user_message == a.pending_user_message
    &&& b.current_error == a.current_error
    &&& b.info_message == a.info_message
    &&& b.plan_expanded == a.plan_expanded
    &&& b.overlay_active == a.overlay_active
    &&& b.spinner_state == a.spinner_state
    &&& b.last_known_width == a.last_known_width
    &&& b.terminal_bg == a.terminal_bg
}

/// Fields untouched by a tool-block update: everything but the active
/// message.
pub open spec fn renderer_frame_but_active(a: TerminalRenderer, b: TerminalRenderer) -> bool {
    &&& b.transcript.committed_messages == a.transcript.committed_messages
    &&& b.transcript.committed_rendered_count == a.transcript.committed_rendered_count
    &&& b.pending_history_lines == a.pending_history_lines
    &&& b.deferred_history_lines == a.deferred_history_lines
    &&& b.streaming_controller == a.streaming_controller
    &&& b.streaming_open == a.streaming_open
    &&& b.last_stream_kind == a.last_stream_kind
    &&& b.current_error == a.current_error
    &&& b.info_message == a.info_message
    &&& b.pending_user_message == a.pending_user_message
    &&& b.overlay_active == a.overlay_active
    &&& b.last_known_width == a.last_known_width
}

/// Fields untouched by setting or clearing the error.
pub open spec fn renderer_frame_but_error(a: TerminalRenderer, b: TerminalRenderer) -> bool {
    &&& b.transcript == a.transcript
    &&& b.pending_history_lines == a.pending_history_lines
    &&& b.deferred_history_lines == a.deferred_history_lines
    &&& b.info_message == a.info_message
    &&& b.pending_user_message == a.pending_user_message
    &&& b.streaming_open == a.streaming_open
}

/// Appends all lines of `src` to `out`.
pub fn append_lines(out: &mut Vec<StyledLine>, src: Vec<StyledLine>)
    ensures
        final(out)@ == old(out)@ + src@,
{
    let mut rest = src;
    let n = rest.len();
    let ghost srcv = rest@;
    let mut i: usize = 0;
    proof {
        assert(old(out)@ + srcv.take(0) =~= old(out)@);
    }
    while i < n
        invariant
            i <= n,
            srcv.len() == n,
            rest@ == srcv.skip(i as int),
            out@ == old(out)@ + srcv.take(i as int),
        decreases n - i,
    {
        let ghost prerest = rest@;
        let line = rest.remove(0);
        out.push(line);
        proof {
            assert(prerest[0] == srcv[i as int]);
            assert(rest@ =~= srcv.skip(i + 1));
            assert(out@ =~= old(out)@ + srcv.take(i + 1));
        }
        i += 1;
    }
    proof {
        assert(srcv.take(n as int) =~= srcv);
    }
}



/// The lines one kind's finalize-and-drain emits: the queued lines followed
/// by the blank-stripped remainder of the rendered buffer past the
/// watermark.
pub open spec fn spec_flush_lines(st: crate::streaming::StreamState) -> Seq<
    crate::style::LineV,
> {
    let src = (if st.collector.buffer@.len() > 0 && st.collector.buffer@.last() == '\n' {
        st.collector.buffer@
    } else {
        st.collector.buffer@.push('\n')
    });
    let rendered = crate::markdown::spec_rendered(src, st.collector.width);
    let end = crate::markdown::spec_strip_end(rendered, st.collector.committed_line_count as int);
    crate::streaming::queue_view(st.queued_lines@) + (if st.collector.committed_line_count
        < end {
        rendered.subrange(st.collector.committed_line_count as int, end)
    } else {
        Seq::<crate::style::LineV>::empty()
    })
}

/// An empty separator line.
pub open spec fn spec_blank_line_v() -> crate::style::LineV {
    crate::style::LineV {
        spans: Seq::<crate::style::SpanV>::empty(),
        style: TextStyle::spec_plain(),
    }
}

/// What one kind's flush appends to history: nothing when the stream has
/// nothing, else its lines (indented; thinking also restyled) followed by
/// exactly one blank separator line.
pub open spec fn spec_flush_growth(st: crate::streaming::StreamState, kind: StreamKind) -> Seq<
    crate::style::LineV,
> {
    let f = spec_flush_lines(st);
    if f.len() == 0 {
        Seq::<crate::style::LineV>::empty()
    } else {
        (match kind {
            StreamKind::Text => crate::transcript::spec_indent_lines_v(f),
            StreamKind::Thinking => crate::transcript::spec_indent_lines_v(
                crate::transcript::spec_think_lines_v(f),
            ),
        }) + seq![spec_blank_line_v()]
    }
}

/// What a drained commit tick appends to history: the drained text lines
/// indented, then the drained thinking lines restyled and indented, with no
/// separators.
pub open spec fn spec_drained_growth(
    text: Seq<crate::style::LineV>,
    thinking: Seq<crate::style::LineV>,
) -> Seq<crate::style::LineV> {
    crate::transcript::spec_indent_lines_v(text) + crate::transcript::spec_indent_lines_v(
        crate::transcript::spec_think_lines_v(thinking),
    )
}

/// The message's blocks with the pure-stream (text and thinking) blocks
/// removed.
pub open spec fn spec_non_stream_blocks(blocks: Seq<MessageBlock>) -> Seq<MessageBlock>
    decreases blocks.len(),
{
    if blocks.len() == 0 {
        Seq::<MessageBlock>::empty()
    } else {
        let rest = spec_non_stream_blocks(blocks.drop_first());
        match blocks[0] {
            MessageBlock::PlainText(_) => rest,
            MessageBlock::Thinking(_) => rest,
            _ => seq![blocks[0]] + rest,
        }
    }
}

/// The stream kind a block belongs to, if any.
pub open spec fn spec_stream_kind_for_block(b: MessageBlock) -> Option<StreamKind> {
    match b {
        MessageBlock::PlainText(_) => Some(StreamKind::Text),
        MessageBlock::Thinking(_) => Some(StreamKind::Thinking),
        MessageBlock::ToolUse(_) => None,
        MessageBlock::UserText(_) => None,
    }
}

/// A fresh block for a stream tail; empty text (or all-blank thinking)
/// yields none.
fn block_for_stream_kind(kind: StreamKind, content: String, now_ms: u64) -> (r: Option<
    MessageBlock,
>)
    ensures
        r matches Some(b) ==> spec_block_wf(b),
{
    match kind {
        StreamKind::Text => {
            if content.as_str().is_empty() {
                None
            } else {
                let mut b = PlainTextBlock::new();
                b.content = content;
                Some(MessageBlock::PlainText(b))
            }
        },
        StreamKind::Thinking => {
            let cs = chars_of_str(content.as_str());
            if chars_is_blank(&cs) {
                None
            } else {
                let mut b = ThinkingBlock::new(now_ms);
                b.content = content;
                Some(MessageBlock::Thinking(b))
            }
        },
    }
}

/// Rebuilds the active message's blocks so its stream-kind slots carry the
/// current tails, in the order the existing blocks (or the last-seen kind)
/// dictate; non-stream blocks keep their places.
fn merge_stream_blocks(
    existing: Vec<MessageBlock>,
    text_tail: String,
    thinking_tail: String,
    last_kind: Option<StreamKind>,
    now_ms: u64,
) -> (r: Vec<MessageBlock>)
    requires
        forall|j: int| 0 <= j < existing@.len() ==> spec_block_wf(#[trigger] existing@[j]),
    ensures
        forall|j: int| 0 <= j < r@.len() ==> spec_block_wf(#[trigger] r@[j]),
{
    let text_cs = chars_of_str(text_tail.as_str());
    let thinking_cs = chars_of_str(thinking_tail.as_str());
    let text_nonempty = text_cs.len() > 0;
    let thinking_nonblank = !chars_is_blank(&thinking_cs);
    // The order of stream kinds: from existing stream blocks, else from the
    // last seen kind (the departing kind's tail renders above the newer one).
    let mut order: Vec<StreamKind> = Vec::new();
    let mut i: usize = 0;
    let n = existing.len();
    while i < n
        invariant
            i <= n,
            n == existing@.len(),
            forall|j: int| 0 <= j < existing@.len() ==> spec_block_wf(#[trigger] existing@[j]),
        decreases n - i,
    {
        match &existing[i] {
            MessageBlock::PlainText(_) => {
                if !contains_kind(&order, StreamKind::Text) {
                    order.push(StreamKind::Text);
                }
            },
            MessageBlock::Thinking(_) => {
                if !contains_kind(&order, StreamKind::Thinking) {
                    order.push(StreamKind::Thinking);
                }
            },
            _ => {},
        }
        i += 1;
    }
    if order.len() == 0 {
        match last_kind {
            Some(StreamKind::Text) => {
                if thinking_nonblank {
                    order.push(StreamKind::Thinking);
                }
                if text_nonempty {
                    order.push(StreamKind::Text);
                }
            },
            Some(StreamKind::Thinking) => {
                if text_nonempty {
                    order.push(StreamKind::Text);
                }
                if thinking_nonblank {
                    order.push(StreamKind::Thinking);
                }
            },
            None => {
                if text_nonempty {
                    order.push(StreamKind::Text);
                }
                if thinking_nonblank {
                    order.push(StreamKind::Thinking);
                }
            },
        }
    } else {
        if text_nonempty && !contains_kind(&order, StreamKind::Text) {
            order.push(StreamKind::Text);
        }
        if thinking_nonblank && !contains_kind(&order, StreamKind::Thinking) {
            order.push(StreamKind::Thinking);
        }
    }
    let mut stream_blocks: Vec<MessageBlock> = Vec::new();
    let mut k: usize = 0;
    while k < order.len()
        invariant
            k <= order@.len(),
            forall|j: int|
                0 <= j < stream_blocks@.len() ==> spec_block_wf(#[trigger] stream_blocks@[j]),
        decreases order@.len() - k,
    {
        let content = match order[k] {
            StreamKind::Text => string_of_chars(&text_cs),
            StreamKind::Thinking => string_of_chars(&thinking_cs),
        };
        match block_for_stream_kind(order[k], content, now_ms) {
            Some(b) => {
                stream_blocks.push(b);
            },
            None => {},
        }
        k += 1;
    }
    if stream_blocks.len() == 0 {
        return existing;
    }
    // Rebuild: each old stream-slot takes the next new stream block;
    // leftovers append at the end.
    let mut rebuilt: Vec<MessageBlock> = Vec::new();
    let mut rest = existing;
    let mut sb = stream_blocks;
    let n2 = rest.len();
    let mut i2: usize = 0;
    while i2 < n2
        invariant
            i2 <= n2,
            rest@.len() == n2 - i2,
            forall|j: int| 0 <= j < rest@.len() ==> spec_block_wf(#[trigger] rest@[j]),
            forall|j: int| 0 <= j < sb@.len() ==> spec_block_wf(#[trigger] sb@[j]),
            forall|j: int| 0 <= j < rebuilt@.len() ==> spec_block_wf(#[trigger] rebuilt@[j]),
        decreases n2 - i2,
    {
        let b = rest.remove(0);
        let is_stream = match &b {
            MessageBlock::PlainText(_) => true,
            MessageBlock::Thinking(_) => true,
            _ => false,
        };
        if is_stream {
            if sb.len() > 0 {
                let nb = sb.remove(0);
                rebuilt.push(nb);
            }
        } else {
            rebuilt.push(b);
        }
        i2 += 1;
    }
    while sb.len() > 0
        invariant
            forall|j: int| 0 <= j < sb@.len() ==> spec_block_wf(#[trigger] sb@[j]),
            forall|j: int| 0 <= j < rebuilt@.len() ==> spec_block_wf(#[trigger] rebuilt@[j]),
        decreases sb@.len(),
    {
        let nb = sb.remove(0);
        rebuilt.push(nb);
    }
    rebuilt
}

/// Membership test over the small kind list.
fn contains_kind(order: &Vec<StreamKind>, kind: StreamKind) -> (r: bool)
    ensures
        r == (exists|j: int| 0 <= j < order@.len() && order@[j] == kind),
{
    let mut i: usize = 0;
    while i < order.len()
        invariant
            i <= order@.len(),
            forall|j: int| 0 <= j < i ==> order@[j] != kind,
        decreases order@.len() - i,
    {
        if order[i] == kind {
            return true;
        }
        i += 1;
    }
    false
}

/// The spinner glyph for one animation step (a ten-frame braille cycle).
pub open spec fn spec_spinner_glyph(i: int) -> char {
    if i == 0 {
        '\u{280b}'
    } else if i == 1 {
        '\u{2819}'
    } else if i == 2 {
        '\u{2839}'
    } else if i == 3 {
        '\u{2838}'
    } else if i == 4 {
        '\u{283c}'
    } else if i == 5 {
        '\u{2834}'
    } else if i == 6 {
        '\u{2826}'
    } else if i == 7 {
        '\u{2827}'
    } else if i == 8 {
        '\u{2807}'
    } else {
        '\u{280f}'
    }
}

fn spinner_glyph(i: u64) -> (r: char)
    requires
        i < 10,
    ensures
        r == spec_spinner_glyph(i as int),
{
    if i == 0 {
        '\u{280b}'
    } else if i == 1 {
        '\u{2819}'
    } else if i == 2 {
        '\u{2839}'
    } else if i == 3 {
        '\u{2838}'
    } else if i == 4 {
        '\u{283c}'
    } else if i == 5 {
        '\u{2834}'
    } else if i == 6 {
        '\u{2826}'
    } else if i == 7 {
        '\u{2827}'
    } else if i == 8 {
        '\u{2807}'
    } else {
        '\u{280f}'
    }
}

impl SpinnerState {
    /// The spinner's glyph and color at `now_ms`: the braille cycle steps
    /// every hundred milliseconds; loading spins blue, rate limiting spins
    /// light red, hidden shows nothing.
    pub fn get_spinner_char(&self, now_ms: u64) -> (r: Option<(char, ratatui::style::Color)>)
        ensures
            self is Hidden <==> r is None,
            self matches SpinnerState::Loading { start_ms } ==> r == Some(
                (
                    spec_spinner_glyph(
                        (crate::chunking::spec_age_ms(now_ms, *start_ms) / 100 % 10) as int,
                    ),
                    ratatui::style::Color::Blue,
                ),
            ),
            self matches SpinnerState::RateLimit { start_ms, .. } ==> r == Some(
                (
                    spec_spinner_glyph(
                        (crate::chunking::spec_age_ms(now_ms, *start_ms) / 100 % 10) as int,
                    ),
                    ratatui::style::Color::LightRed,
                ),
            ),
    {
        match self {
            SpinnerState::Hidden => None,
            SpinnerState::Loading { start_ms } => {
                let idx = crate::chunking::age_ms(now_ms, *start_ms) / 100 % 10;
                Some((spinner_glyph(idx), ratatui::style::Color::Blue))
            },
            SpinnerState::RateLimit { start_ms, .. } => {
                let idx = crate::chunking::age_ms(now_ms, *start_ms) / 100 % 10;
                Some((spinner_glyph(idx), ratatui::style::Color::LightRed))
            },
        }
    }

    /// The spinner's status text: only rate limiting has one.
    pub fn get_status_text(&self) -> (r: Option<String>)
        ensures
            self matches SpinnerState::RateLimit { seconds_remaining, .. } ==> (r matches Some(s)
                && s@ == "Rate limited ("@ + spec_decimal(seconds_remaining as nat) + "s)"@),
            !(self is RateLimit) ==> r is None,
    {
        proof {
            reveal_strlit("Rate limited (");
            reveal_strlit("s)");
        }
        match self {
            SpinnerState::RateLimit { seconds_remaining, .. } => {
                let mut out = chars_of_str("Rate limited (");
                push_decimal(&mut out, *seconds_remaining);
                let tail = chars_of_str("s)");
                append_chars(&mut out, &tail);
                proof {
                    assert(out@ =~= "Rate limited ("@ + spec_decimal(
                        *seconds_remaining as nat,
                    ) + "s)"@);
                }
                Some(string_of_chars(&out))
            },
            _ => None,
        }
    }
}

} // verus!

