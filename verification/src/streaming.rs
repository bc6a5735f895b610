//! Per-kind stream state and the streaming controller: feeding deltas into
//! the newline-gated collectors, queueing completed lines with timestamps,
//! and draining them under the adaptive policy's plan.

use vstd::prelude::*;
use crate::chunking::{AdaptiveChunkingPolicy, DrainPlan, QueueSnapshot};
use crate::markdown::{
    MarkdownStreamCollector,
    spec_rendered,
    spec_eligible,
    spec_strip_end,
    spec_complete_count,
    spec_tail,
};
use crate::style::{StyledLine, LineV, lines_view};
use crate::text::{chars_of_str, spec_has_nl};

verus! {

/// The two streamed block kinds.
#[derive(Clone, Copy, Debug, PartialEq, Eq, Structural)]
pub enum StreamKind {
    Text,
    Thinking,
}

/// One committed line waiting to flow into scrollback, with the time it was
/// queued.
pub struct QueuedLine {
    pub line: StyledLine,
    pub enqueued_at_ms: u64,
}

/// The views of the queued lines.
pub open spec fn queue_view(q: Seq<QueuedLine>) -> Seq<LineV> {
    q.map_values(|e: QueuedLine| e.line@)
}

/// Lines drained in one operation, per kind.
pub struct DrainedLines {
    pub text: Vec<StyledLine>,
    pub thinking: Vec<StyledLine>,
}

/// In-flight markdown stream state for one kind.
pub struct StreamState {
    pub collector: MarkdownStreamCollector,
    pub queued_lines: Vec<QueuedLine>,
    pub has_seen_delta: bool,
}

impl StreamState {
    pub fn new(width: Option<usize>) -> (r: StreamState)
        ensures
            r.collector.buffer@.len() == 0,
            r.collector.committed_line_count == 0,
            r.collector.width == width,
            r.queued_lines@.len() == 0,
            !r.has_seen_delta,
    {
        StreamState {
            collector: MarkdownStreamCollector::new(width),
            queued_lines: Vec::new(),
            has_seen_delta: false,
        }
    }

    pub fn set_width(&mut self, width: Option<usize>)
        ensures
            final(self).collector.buffer == old(self).collector.buffer,
            final(self).collector.committed_line_count == old(self).collector.committed_line_count,
            final(self).collector.width == width,
            final(self).queued_lines == old(self).queued_lines,
            final(self).has_seen_delta == old(self).has_seen_delta,
    {
        self.collector.set_width(width);
    }

    pub fn clear(&mut self)
        ensures
            final(self).collector.buffer@.len() == 0,
            final(self).collector.committed_line_count == 0,
            final(self).collector.width == old(self).collector.width,
            final(self).queued_lines@.len() == 0,
            !final(self).has_seen_delta,
    {
        self.collector.clear();
        self.queued_lines = Vec::new();
        self.has_seen_delta = false;
    }

    pub fn queued_len(&self) -> (r: usize)
        ensures
            r == self.queued_lines@.len(),
    {
        self.queued_lines.len()
    }

    /// Age of the oldest queued line at `now_ms`, saturating at zero.
    pub fn oldest_queued_age(&self, now_ms: u64) -> (r: Option<u64>)
        ensures
            self.queued_lines@.len() == 0 ==> r is None,
            self.queued_lines@.len() > 0 ==> r == Some(
                crate::chunking::spec_age_ms(now_ms, self.queued_lines@[0].enqueued_at_ms),
            ),
    {
        if self.queued_lines.len() == 0 {
            None
        } else {
            Some(crate::chunking::age_ms(now_ms, self.queued_lines[0].enqueued_at_ms))
        }
    }

    /// Queues committed lines, all timestamped `now_ms`.
    pub fn enqueue(&mut self, lines: Vec<StyledLine>, now_ms: u64)
        ensures
            final(self).collector == old(self).collector,
            final(self).has_seen_delta == old(self).has_seen_delta,
            queue_view(final(self).queued_lines@) == queue_view(old(self).queued_lines@)
                + lines_view(lines@),
            final(self).queued_lines@.len() == old(self).queued_lines@.len() + lines@.len(),
            // Every new entry carries this call's timestamp; older entries
            // keep theirs.
            forall|j: int|
                0 <= j < old(self).queued_lines@.len() ==> #[trigger] final(self).queued_lines@[j] == old(self).queued_lines@[j],
            forall|j: int|
                old(self).queued_lines@.len() <= j < final(self).queued_lines@.len()
                    ==> (#[trigger] final(self).queued_lines@[j]).enqueued_at_ms == now_ms,
    {
        let ghost lv = lines_view(lines@);
        let ghost pre_all = queue_view(self.queued_lines@);
        let mut rest = lines;
        let mut i: usize = 0;
        let n = rest.len();
        proof {
            assert(lv.len() == n as int);
            assert(lines_view(rest@) =~= lv.skip(0));
            assert(queue_view(self.queued_lines@) =~= pre_all + lv.take(0));
        }
        while i < n
            invariant
                i <= n,
                n == lv.len(),
                rest@.len() == n - i,
                self.collector == old(self).collector,
                self.has_seen_delta == old(self).has_seen_delta,
                lines_view(rest@) == lv.skip(i as int),
                queue_view(self.queued_lines@) == pre_all + lv.take(i as int),
                self.queued_lines@.len() == old(self).queued_lines@.len() + i,
                forall|j: int|
                    0 <= j < old(self).queued_lines@.len() ==> #[trigger] self.queued_lines@[j]
                        == old(self).queued_lines@[j],
                forall|j: int|
                    old(self).queued_lines@.len() <= j < self.queued_lines@.len()
                        ==> (#[trigger] self.queued_lines@[j]).enqueued_at_ms == now_ms,
            decreases n - i,
        {
            let ghost pre = self.queued_lines@;
            let ghost pre_rest = rest@;
            let line = rest.remove(0);
            let ghost lvv = line;
            self.queued_lines.push(QueuedLine { line, enqueued_at_ms: now_ms });
            proof {
                assert(lvv == pre_rest[0]);
                assert(lines_view(pre_rest) == lv.skip(i as int));
                assert(lines_view(pre_rest)[0] == pre_rest[0]@);
                assert(rest@ == pre_rest.remove(0));
                assert(pre_rest.len() == n - i);
                assert(lines_view(pre_rest).len() == pre_rest.len());
                assert forall|j: int| 0 <= j < rest@.len() implies lines_view(rest@)[j] == lv.skip(
                    i + 1,
                )[j] by {
                    assert(lines_view(rest@)[j] == rest@[j]@);
                    assert(rest@[j] == pre_rest[j + 1]);
                    assert(lines_view(pre_rest)[j + 1] == pre_rest[j + 1]@);
                    assert(lines_view(pre_rest)[j + 1] == lv.skip(i as int)[j + 1]);
                }
                assert(lines_view(rest@) =~~= lv.skip(i + 1));
                assert(self.queued_lines@ == pre.push(
                    QueuedLine { line: lvv, enqueued_at_ms: now_ms },
                ));
                assert(queue_view(pre).len() == pre.len());
                assert(lvv@ == lv[i as int]);
                assert forall|j: int|
                    0 <= j < self.queued_lines@.len() implies queue_view(self.queued_lines@)[j]
                    == (pre_all + lv.take(i + 1))[j] by {
                    assert(queue_view(self.queued_lines@)[j] == self.queued_lines@[j].line@);
                    if j < pre.len() {
                        assert(self.queued_lines@[j] == pre[j]);
                        assert(queue_view(pre)[j] == pre[j].line@);
                    }
                }
                assert(queue_view(self.queued_lines@) =~~= pre_all + lv.take(i + 1));
            }
            i += 1;
        }
        proof {
            assert(lv.take(lv.len() as int) =~= lv);
        }
    }

    /// Removes and returns up to `max_lines` lines from the front of the
    /// queue.
    pub fn drain_n(&mut self, max_lines: usize) -> (r: Vec<StyledLine>)
        ensures
            final(self).collector == old(self).collector,
            final(self).has_seen_delta == old(self).has_seen_delta,
            ({
                let k = (if max_lines <= old(self).queued_lines@.len() {
                    max_lines as int
                } else {
                    old(self).queued_lines@.len() as int
                });
                &&& lines_view(r@) == queue_view(old(self).queued_lines@).take(k)
                &&& final(self).queued_lines@ == old(self).queued_lines@.skip(k)
            }),
    {
        let k = if max_lines <= self.queued_lines.len() {
            max_lines
        } else {
            self.queued_lines.len()
        };
        let ghost orig = self.queued_lines@;
        let mut r: Vec<StyledLine> = Vec::new();
        let mut i: usize = 0;
        while i < k
            invariant
                i <= k <= orig.len(),
                self.collector == old(self).collector,
                self.has_seen_delta == old(self).has_seen_delta,
                lines_view(r@) == queue_view(orig).take(i as int),
                self.queued_lines@ == orig.skip(i as int),
            decreases k - i,
        {
            let ghost pre = r@;
            let e = self.queued_lines.remove(0);
            let ghost ev = e.line;
            r.push(e.line);
            proof {
                assert(r@ == pre.push(ev));
                assert(lines_view(pre).len() == pre.len());
                assert(orig.skip(i as int)[0] == orig[i as int]);
                assert(ev@ == queue_view(orig)[i as int]);
                assert(self.queued_lines@ =~= orig.skip(i + 1));
                assert forall|j: int|
                    0 <= j < r@.len() implies lines_view(r@)[j] == queue_view(orig).take(i + 1)[j]
                    by {
                    assert(lines_view(r@)[j] == r@[j]@);
                    if j < pre.len() {
                        assert(r@[j] == pre[j]);
                        assert(lines_view(pre)[j] == pre[j]@);
                    }
                }
                assert(lines_view(r@) =~~= queue_view(orig).take(i + 1));
            }
            i += 1;
        }
        r
    }

    /// Removes and returns the whole queue.
    pub fn drain_all(&mut self) -> (r: Vec<StyledLine>)
        ensures
            final(self).collector == old(self).collector,
            final(self).has_seen_delta == old(self).has_seen_delta,
            lines_view(r@) == queue_view(old(self).queued_lines@),
            final(self).queued_lines@.len() == 0,
    {
        let n = self.queued_lines.len();
        let r = self.drain_n(n);
        proof {
            assert(queue_view(old(self).queued_lines@).take(n as int) =~= queue_view(
                old(self).queued_lines@,
            ));
            assert(old(self).queued_lines@.skip(n as int) =~= Seq::<QueuedLine>::empty());
        }
        r
    }
}

/// Owns one stream state per kind plus the adaptive drain policy.
pub struct StreamingController {
    pub text_state: StreamState,
    pub thinking_state: StreamState,
    pub policy: AdaptiveChunkingPolicy,
}

impl StreamingController {
    pub fn new() -> (r: StreamingController)
        ensures
            r.text_state.queued_lines@.len() == 0,
            r.thinking_state.queued_lines@.len() == 0,
            r.text_state.collector.buffer@.len() == 0,
            r.thinking_state.collector.buffer@.len() == 0,
            !r.text_state.has_seen_delta,
            !r.thinking_state.has_seen_delta,
            r.policy.spec_mode() is Smooth,
    {
        StreamingController {
            text_state: StreamState::new(None),
            thinking_state: StreamState::new(None),
            policy: AdaptiveChunkingPolicy::new(),
        }
    }

    pub fn clear(&mut self)
        ensures
            final(self).text_state.queued_lines@.len() == 0,
            final(self).thinking_state.queued_lines@.len() == 0,
            final(self).text_state.collector.buffer@.len() == 0,
            final(self).thinking_state.collector.buffer@.len() == 0,
            !final(self).text_state.has_seen_delta,
            !final(self).thinking_state.has_seen_delta,
            final(self).policy.spec_mode() is Smooth,
    {
        self.text_state.clear();
        self.thinking_state.clear();
        self.policy.reset();
    }

    pub fn set_width(&mut self, width: Option<usize>)
        ensures
            final(self).text_state.collector.width == width,
            final(self).thinking_state.collector.width == width,
            final(self).text_state.collector.buffer == old(self).text_state.collector.buffer,
            final(self).thinking_state.collector.buffer == old(
                self,
            ).thinking_state.collector.buffer,
            final(self).text_state.queued_lines == old(self).text_state.queued_lines,
            final(self).thinking_state.queued_lines == old(self).thinking_state.queued_lines,
            final(self).policy == old(self).policy,
    {
        self.text_state.set_width(width);
        self.thinking_state.set_width(width);
    }

    pub open spec fn spec_state_of(self, kind: StreamKind) -> StreamState {
        match kind {
            StreamKind::Text => self.text_state,
            StreamKind::Thinking => self.thinking_state,
        }
    }

    /// True when any delta arrived since the last clear.
    pub fn has_seen_any_delta(&self) -> (r: bool)
        ensures
            r == (self.text_state.has_seen_delta || self.thinking_state.has_seen_delta),
    {
        self.text_state.has_seen_delta || self.thinking_state.has_seen_delta
    }

    /// The live tail of one kind, for the viewport.
    pub fn tail_text(&self, kind: StreamKind) -> (r: String)
        ensures
            r@ == spec_tail(self.spec_state_of(kind).collector.buffer@),
    {
        match kind {
            StreamKind::Text => self.text_state.collector.current_tail(),
            StreamKind::Thinking => self.thinking_state.collector.current_tail(),
        }
    }

    /// Feeds one delta into the kind's collector; when the delta brings a
    /// newline, the newly completed lines are committed and queued at
    /// `now_ms`. An empty delta changes nothing.
    pub fn push(&mut self, kind: StreamKind, content: &str, now_ms: u64)
        ensures
            ({
                let other = (match kind {
                    StreamKind::Text => StreamKind::Thinking,
                    StreamKind::Thinking => StreamKind::Text,
                });
                &&& final(self).spec_state_of(other) == old(self).spec_state_of(other)
                &&& final(self).policy == old(self).policy
            }),
            content@.len() == 0 ==> *final(self) == *old(self),
            content@.len() > 0 ==> ({
                let st = old(self).spec_state_of(kind);
                let fi = final(self).spec_state_of(kind);
                let buf2 = st.collector.buffer@ + content@;
                &&& fi.collector.buffer@ == buf2
                &&& fi.collector.width == st.collector.width
                &&& fi.has_seen_delta
                &&& !spec_has_nl(content@) ==> {
                    &&& fi.queued_lines == st.queued_lines
                    &&& fi.collector.committed_line_count == st.collector.committed_line_count
                }
                &&& spec_has_nl(content@) ==> ({
                    let rendered = spec_rendered(spec_eligible(buf2), st.collector.width);
                    let complete = spec_complete_count(rendered);
                    if st.collector.committed_line_count >= complete {
                        fi.queued_lines == st.queued_lines
                            && fi.collector.committed_line_count
                            == st.collector.committed_line_count
                    } else {
                        &&& queue_view(fi.queued_lines@) == queue_view(st.queued_lines@)
                            + rendered.subrange(
                            st.collector.committed_line_count as int,
                            complete,
                        )
                        &&& fi.collector.committed_line_count == complete
                        // Arrival order is kept and new entries are stamped
                        // with this call's time.
                        &&& forall|j: int|
                            0 <= j < st.queued_lines@.len() ==> #[trigger] fi.queued_lines@[j]
                                == st.queued_lines@[j]
                        &&& forall|j: int|
                            st.queued_lines@.len() <= j < fi.queued_lines@.len() ==> (#[trigger]
                            fi.queued_lines@[j]).enqueued_at_ms == now_ms
                    }
                })
            }),
    {
        let cs = chars_of_str(content);
        if cs.len() == 0 {
            return ;
        }
        let state = match kind {
            StreamKind::Text => &mut self.text_state,
            StreamKind::Thinking => &mut self.thinking_state,
        };
        state.has_seen_delta = true;
        state.collector.push_delta(content);
        if crate::text::has_nl(&cs) {
            proof {
                crate::markdown::lemma_last_nl_bounds(state.collector.buffer@);
                assert(spec_has_nl(state.collector.buffer@)) by {
                    let i = choose|i: int| 0 <= i < cs@.len() && cs@[i] == '\n';
                    assert(state.collector.buffer@[old(
                        self,
                    ).spec_state_of(kind).collector.buffer@.len() + i] == '\n');
                }
            }
            let committed = state.collector.commit_complete_lines();
            if committed.len() > 0 {
                state.enqueue(committed, now_ms);
            } else {
                proof {
                    assert(queue_view(state.queued_lines@) =~= queue_view(state.queued_lines@));
                }
            }
        }
    }
    /// The cross-stream queue snapshot at `now_ms`: total queued lines and
    /// the larger of the two oldest ages.
    pub open spec fn spec_snapshot(self, now_ms: u64) -> QueueSnapshot {
        let t = self.text_state.queued_lines@;
        let h = self.thinking_state.queued_lines@;
        let total = (if t.len() + h.len() <= usize::MAX {
            (t.len() + h.len()) as usize
        } else {
            usize::MAX
        });
        let age_t = crate::chunking::spec_age_ms(now_ms, t[0].enqueued_at_ms);
        let age_h = crate::chunking::spec_age_ms(now_ms, h[0].enqueued_at_ms);
        QueueSnapshot {
            queued_lines: total,
            oldest_age_ms: (if t.len() == 0 && h.len() == 0 {
                None
            } else if t.len() > 0 && h.len() > 0 {
                Some(
                    (if age_t >= age_h {
                        age_t
                    } else {
                        age_h
                    }),
                )
            } else if t.len() > 0 {
                Some(age_t)
            } else {
                Some(age_h)
            }),
        }
    }

    /// Builds the cross-stream queue snapshot at `now_ms`.
    pub fn queue_snapshot(&self, now_ms: u64) -> (r: QueueSnapshot)
        ensures
            r == self.spec_snapshot(now_ms),
    {
        let a = self.text_state.queued_len();
        let b = self.thinking_state.queued_len();
        let queued_lines = if a <= usize::MAX - b {
            a + b
        } else {
            usize::MAX
        };
        let age_a = self.text_state.oldest_queued_age(now_ms);
        let age_b = self.thinking_state.oldest_queued_age(now_ms);
        let oldest_age_ms = match (age_a, age_b) {
            (Some(x), Some(y)) => Some(
                if x >= y {
                    x
                } else {
                    y
                },
            ),
            (Some(x), None) => Some(x),
            (None, Some(y)) => Some(y),
            (None, None) => None,
        };
        QueueSnapshot { queued_lines, oldest_age_ms }
    }

    /// One commit tick at `now_ms`: asks the adaptive policy for a plan over
    /// the cross-stream snapshot, then drains both queues under it (one line
    /// each in smooth mode, the whole backlog in catch-up).
    pub fn drain_commit_tick_at(&mut self, now_ms: u64) -> (r: DrainedLines)
        ensures
            final(self).text_state.collector == old(self).text_state.collector,
            final(self).thinking_state.collector == old(self).thinking_state.collector,
            final(self).text_state.has_seen_delta == old(self).text_state.has_seen_delta,
            final(self).thinking_state.has_seen_delta == old(self).thinking_state.has_seen_delta,
            final(self).policy == old(self).policy.spec_step(
                old(self).spec_snapshot(now_ms),
                now_ms,
            ),
            ({
                let dec = old(self).policy.spec_decision(old(self).spec_snapshot(now_ms), now_ms);
                let k = (match dec.drain_plan {
                    DrainPlan::Single => 1int,
                    DrainPlan::Batch(n) => (if n >= 1 {
                        n as int
                    } else {
                        1int
                    }),
                });
                let kt = (if k <= old(self).text_state.queued_lines@.len() {
                    k
                } else {
                    old(self).text_state.queued_lines@.len() as int
                });
                let kh = (if k <= old(self).thinking_state.queued_lines@.len() {
                    k
                } else {
                    old(self).thinking_state.queued_lines@.len() as int
                });
                &&& lines_view(r.text@) == queue_view(old(self).text_state.queued_lines@).take(kt)
                &&& final(self).text_state.queued_lines@ == old(
                    self,
                ).text_state.queued_lines@.skip(kt)
                &&& lines_view(r.thinking@) == queue_view(
                    old(self).thinking_state.queued_lines@,
                ).take(kh)
                &&& final(self).thinking_state.queued_lines@ == old(
                    self,
                ).thinking_state.queued_lines@.skip(kh)
            }),
    {
        let snapshot = self.queue_snapshot(now_ms);
        let decision = self.policy.decide(snapshot, now_ms);
        let k = match decision.drain_plan {
            DrainPlan::Single => 1,
            DrainPlan::Batch(n) => {
                if n >= 1 {
                    n
                } else {
                    1
                }
            },
        };
        let text = self.text_state.drain_n(k);
        let thinking = self.thinking_state.drain_n(k);
        DrainedLines { text, thinking }
    }

    /// Finalizes both collectors, queues their remainders, resets the
    /// policy, and drains everything.
    pub fn flush_pending_at(&mut self, now_ms: u64) -> (r: DrainedLines)
        ensures
            final(self).text_state.collector.buffer@.len() == 0,
            final(self).thinking_state.collector.buffer@.len() == 0,
            final(self).text_state.queued_lines@.len() == 0,
            final(self).thinking_state.queued_lines@.len() == 0,
            final(self).policy.spec_mode() is Smooth,
            ({
                let st = old(self).text_state;
                let src = (if st.collector.buffer@.len() > 0 && st.collector.buffer@.last()
                    == '\n' {
                    st.collector.buffer@
                } else {
                    st.collector.buffer@.push('\n')
                });
                let rendered = spec_rendered(src, st.collector.width);
                let end = spec_strip_end(rendered, st.collector.committed_line_count as int);
                if st.collector.committed_line_count >= end {
                    lines_view(r.text@) == queue_view(st.queued_lines@)
                } else {
                    lines_view(r.text@) == queue_view(st.queued_lines@) + rendered.subrange(
                        st.collector.committed_line_count as int,
                        end,
                    )
                }
            }),
            ({
                let st = old(self).thinking_state;
                let src = (if st.collector.buffer@.len() > 0 && st.collector.buffer@.last()
                    == '\n' {
                    st.collector.buffer@
                } else {
                    st.collector.buffer@.push('\n')
                });
                let rendered = spec_rendered(src, st.collector.width);
                let end = spec_strip_end(rendered, st.collector.committed_line_count as int);
                if st.collector.committed_line_count >= end {
                    lines_view(r.thinking@) == queue_view(st.queued_lines@)
                } else {
                    lines_view(r.thinking@) == queue_view(st.queued_lines@) + rendered.subrange(
                        st.collector.committed_line_count as int,
                        end,
                    )
                }
            }),
    {
        let text_remaining = self.text_state.collector.finalize_and_drain();
        if text_remaining.len() > 0 {
            self.text_state.enqueue(text_remaining, now_ms);
        }
        let thinking_remaining = self.thinking_state.collector.finalize_and_drain();
        if thinking_remaining.len() > 0 {
            self.thinking_state.enqueue(thinking_remaining, now_ms);
        }
        self.policy.reset();
        let text = self.text_state.drain_all();
        let thinking = self.thinking_state.drain_all();
        proof {
            assert(lines_view(text@) =~= lines_view(text@));
        }
        DrainedLines { text, thinking }
    }

    /// Finalizes and drains a single kind, as done when the stream switches
    /// between text and thinking.
    pub fn flush_kind(&mut self, kind: StreamKind, now_ms: u64) -> (r: Vec<StyledLine>)
        ensures
            ({
                let other = (match kind {
                    StreamKind::Text => StreamKind::Thinking,
                    StreamKind::Thinking => StreamKind::Text,
                });
                final(self).spec_state_of(other) == old(self).spec_state_of(other)
            }),
            final(self).policy == old(self).policy,
            final(self).spec_state_of(kind).collector.buffer@.len() == 0,
            final(self).spec_state_of(kind).queued_lines@.len() == 0,
            ({
                let st = old(self).spec_state_of(kind);
                let src = (if st.collector.buffer@.len() > 0 && st.collector.buffer@.last()
                    == '\n' {
                    st.collector.buffer@
                } else {
                    st.collector.buffer@.push('\n')
                });
                let rendered = spec_rendered(src, st.collector.width);
                let end = spec_strip_end(rendered, st.collector.committed_line_count as int);
                if st.collector.committed_line_count >= end {
                    lines_view(r@) == queue_view(st.queued_lines@)
                } else {
                    lines_view(r@) == queue_view(st.queued_lines@) + rendered.subrange(
                        st.collector.committed_line_count as int,
                        end,
                    )
                }
            }),
    {
        let state = match kind {
            StreamKind::Text => &mut self.text_state,
            StreamKind::Thinking => &mut self.thinking_state,
        };
        let remaining = state.collector.finalize_and_drain();
        if remaining.len() > 0 {
            state.enqueue(remaining, now_ms);
        }
        state.drain_all()
    }
}

} // verus!

