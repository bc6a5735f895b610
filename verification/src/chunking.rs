//! Adaptive drain policy for streamed lines: a two-state machine over queue
//! telemetry that switches between draining one line per tick (smooth) and
//! draining the whole backlog (catch-up), with hysteresis on both edges.

use vstd::prelude::*;

verus! {

/// Queue depth at or above which catch-up mode is entered.
pub const ENTER_QUEUE_DEPTH_LINES: usize = 8;

/// Age of the oldest queued line at or above which catch-up mode is entered.
pub const ENTER_OLDEST_AGE_MS: u64 = 120;

/// Queue depth at or below which catch-up mode may be left.
pub const EXIT_QUEUE_DEPTH_LINES: usize = 2;

/// Oldest-line age at or below which catch-up mode may be left.
pub const EXIT_OLDEST_AGE_MS: u64 = 40;

/// How long the queue must stay below the exit thresholds before catch-up
/// mode is actually left.
pub const EXIT_HOLD_MS: u64 = 250;

/// How long after leaving catch-up mode ordinary re-entry is suppressed.
pub const REENTER_CATCH_UP_HOLD_MS: u64 = 250;

/// Queue depth that counts as a severe backlog and overrides the re-entry hold.
pub const SEVERE_QUEUE_DEPTH_LINES: usize = 64;

/// Oldest-line age that counts as a severe backlog and overrides the re-entry hold.
pub const SEVERE_OLDEST_AGE_MS: u64 = 300;

#[derive(Clone, Copy, Debug, PartialEq, Eq, Structural)]
pub enum ChunkingMode {
    Smooth,
    CatchUp,
}

#[derive(Clone, Copy, Debug, PartialEq, Eq, Structural)]
pub struct QueueSnapshot {
    pub queued_lines: usize,
    pub oldest_age_ms: Option<u64>,
}

#[derive(Clone, Copy, Debug, PartialEq, Eq, Structural)]
pub enum DrainPlan {
    Single,
    Batch(usize),
}

#[derive(Clone, Copy, Debug, PartialEq, Eq, Structural)]
pub struct ChunkingDecision {
    pub mode: ChunkingMode,
    pub entered_catch_up: bool,
    pub drain_plan: DrainPlan,
}

/// Milliseconds elapsed from `since` to `now`, saturating at zero.
pub open spec fn spec_age_ms(now: u64, since: u64) -> u64 {
    if now >= since {
        (now - since) as u64
    } else {
        0
    }
}

pub open spec fn spec_should_enter_catch_up(s: QueueSnapshot) -> bool {
    ||| s.queued_lines >= ENTER_QUEUE_DEPTH_LINES
    ||| (s.oldest_age_ms matches Some(a) && a >= ENTER_OLDEST_AGE_MS)
}

pub open spec fn spec_should_exit_catch_up(s: QueueSnapshot) -> bool {
    &&& s.queued_lines <= EXIT_QUEUE_DEPTH_LINES
    &&& (s.oldest_age_ms matches Some(a) && a <= EXIT_OLDEST_AGE_MS)
}

pub open spec fn spec_is_severe_backlog(s: QueueSnapshot) -> bool {
    ||| s.queued_lines >= SEVERE_QUEUE_DEPTH_LINES
    ||| (s.oldest_age_ms matches Some(a) && a >= SEVERE_OLDEST_AGE_MS)
}

pub struct AdaptiveChunkingPolicy {
    pub mode: ChunkingMode,
    pub below_exit_threshold_since: Option<u64>,
    pub last_catch_up_exit_at: Option<u64>,
}

impl AdaptiveChunkingPolicy {
    /// True while a recent catch-up exit still suppresses ordinary re-entry.
    pub open spec fn spec_reentry_hold_active(self, now: u64) -> bool {
        self.last_catch_up_exit_at matches Some(exit)
            && spec_age_ms(now, exit) < REENTER_CATCH_UP_HOLD_MS
    }

    /// A non-empty snapshot seen in smooth mode switches to catch-up exactly here.
    pub open spec fn spec_enters_catch_up(self, s: QueueSnapshot, now: u64) -> bool {
        &&& self.mode is Smooth
        &&& spec_should_enter_catch_up(s)
        &&& (!self.spec_reentry_hold_active(now) || spec_is_severe_backlog(s))
    }

    /// A snapshot seen in catch-up mode switches back to smooth exactly here.
    pub open spec fn spec_exits_catch_up(self, s: QueueSnapshot, now: u64) -> bool {
        &&& self.mode is CatchUp
        &&& spec_should_exit_catch_up(s)
        &&& self.below_exit_threshold_since matches Some(since)
            && spec_age_ms(now, since) >= EXIT_HOLD_MS
    }

    pub open spec fn spec_mode(self) -> ChunkingMode {
        self.mode
    }

    pub open spec fn spec_below_exit_threshold_since(self) -> Option<u64> {
        self.below_exit_threshold_since
    }

    pub open spec fn spec_last_catch_up_exit_at(self) -> Option<u64> {
        self.last_catch_up_exit_at
    }

    /// The policy state after one decision over `s` at time `now`.
    pub open spec fn spec_step(self, s: QueueSnapshot, now: u64) -> AdaptiveChunkingPolicy {
        if s.queued_lines == 0 {
            AdaptiveChunkingPolicy {
                mode: ChunkingMode::Smooth,
                below_exit_threshold_since: None,
                last_catch_up_exit_at: if self.mode is CatchUp {
                    Some(now)
                } else {
                    self.last_catch_up_exit_at
                },
            }
        } else if self.mode is Smooth {
            if self.spec_enters_catch_up(s, now) {
                AdaptiveChunkingPolicy {
                    mode: ChunkingMode::CatchUp,
                    below_exit_threshold_since: None,
                    last_catch_up_exit_at: None,
                }
            } else {
                self
            }
        } else if self.spec_exits_catch_up(s, now) {
            AdaptiveChunkingPolicy {
                mode: ChunkingMode::Smooth,
                below_exit_threshold_since: None,
                last_catch_up_exit_at: Some(now),
            }
        } else {
            AdaptiveChunkingPolicy {
                mode: ChunkingMode::CatchUp,
                below_exit_threshold_since: if !spec_should_exit_catch_up(s) {
                    None
                } else if self.below_exit_threshold_since is Some {
                    self.below_exit_threshold_since
                } else {
                    Some(now)
                },
                last_catch_up_exit_at: self.last_catch_up_exit_at,
            }
        }
    }

    /// The decision reported for one step over `s` at time `now`.
    pub open spec fn spec_decision(self, s: QueueSnapshot, now: u64) -> ChunkingDecision {
        let next = self.spec_step(s, now);
        ChunkingDecision {
            mode: next.mode,
            entered_catch_up: s.queued_lines > 0 && self.spec_enters_catch_up(s, now),
            drain_plan: if s.queued_lines > 0 && next.mode is CatchUp {
                DrainPlan::Batch(if s.queued_lines >= 1 {
                    s.queued_lines
                } else {
                    1
                })
            } else {
                DrainPlan::Single
            },
        }
    }

    pub fn new() -> (r: AdaptiveChunkingPolicy)
        ensures
            r.spec_mode() is Smooth,
            r.spec_below_exit_threshold_since() is None,
            r.spec_last_catch_up_exit_at() is None,
    {
        AdaptiveChunkingPolicy {
            mode: ChunkingMode::Smooth,
            below_exit_threshold_since: None,
            last_catch_up_exit_at: None,
        }
    }

    pub fn mode(&self) -> (r: ChunkingMode)
        ensures
            r == self.spec_mode(),
    {
        self.mode
    }

    pub fn reset(&mut self)
        ensures
            final(self).spec_mode() is Smooth,
            final(self).spec_below_exit_threshold_since() is None,
            final(self).spec_last_catch_up_exit_at() is None,
    {
        self.mode = ChunkingMode::Smooth;
        self.below_exit_threshold_since = None;
        self.last_catch_up_exit_at = None;
    }

    /// One policy decision over a queue snapshot at time `now_ms`.
    ///
    /// An empty queue forces smooth mode and clears the exit timer. Otherwise,
    /// smooth mode enters catch-up when the entry thresholds are met (unless a
    /// recent exit holds it back and the backlog is not severe), and catch-up
    /// mode returns to smooth only after the exit thresholds have held for the
    /// exit-hold window. Catch-up drains the whole backlog; smooth drains one
    /// line per tick.
    pub fn decide(&mut self, snapshot: QueueSnapshot, now_ms: u64) -> (r: ChunkingDecision)
        ensures
            *final(self) == old(self).spec_step(snapshot, now_ms),
            r == old(self).spec_decision(snapshot, now_ms),
    {
        if snapshot.queued_lines == 0 {
            self.note_catch_up_exit(now_ms);
            self.mode = ChunkingMode::Smooth;
            self.below_exit_threshold_since = None;
            return ChunkingDecision {
                mode: self.mode,
                entered_catch_up: false,
                drain_plan: DrainPlan::Single,
            };
        }

        let entered_catch_up = match self.mode {
            ChunkingMode::Smooth => self.maybe_enter_catch_up(snapshot, now_ms),
            ChunkingMode::CatchUp => {
                self.maybe_exit_catch_up(snapshot, now_ms);
                false
            },
        };

        let drain_plan = match self.mode {
            ChunkingMode::Smooth => DrainPlan::Single,
            ChunkingMode::CatchUp => DrainPlan::Batch(
                if snapshot.queued_lines >= 1 {
                    snapshot.queued_lines
                } else {
                    1
                },
            ),
        };

        ChunkingDecision { mode: self.mode, entered_catch_up, drain_plan }
    }

    fn maybe_enter_catch_up(&mut self, snapshot: QueueSnapshot, now_ms: u64) -> (entered: bool)
        requires
            old(self).spec_mode() is Smooth,
        ensures
            entered == old(self).spec_enters_catch_up(snapshot, now_ms),
            entered ==> {
                &&& final(self).spec_mode() is CatchUp
                &&& final(self).spec_below_exit_threshold_since() is None
                &&& final(self).spec_last_catch_up_exit_at() is None
            },
            !entered ==> *final(self) == *old(self),
    {
        if !should_enter_catch_up(snapshot) {
            return false;
        }
        if self.reentry_hold_active(now_ms) && !is_severe_backlog(snapshot) {
            return false;
        }
        self.mode = ChunkingMode::CatchUp;
        self.below_exit_threshold_since = None;
        self.last_catch_up_exit_at = None;
        true
    }

    fn maybe_exit_catch_up(&mut self, snapshot: QueueSnapshot, now_ms: u64)
        requires
            old(self).spec_mode() is CatchUp,
        ensures
            final(self).spec_last_catch_up_exit_at() == (
                if old(self).spec_exits_catch_up(snapshot, now_ms) {
                    Some(now_ms)
                } else {
                    old(self).spec_last_catch_up_exit_at()
                }),
            old(self).spec_exits_catch_up(snapshot, now_ms) ==> {
                &&& final(self).spec_mode() is Smooth
                &&& final(self).spec_below_exit_threshold_since() is None
            },
            !old(self).spec_exits_catch_up(snapshot, now_ms) ==> {
                &&& final(self).spec_mode() is CatchUp
                &&& final(self).spec_below_exit_threshold_since() == (
                    if !spec_should_exit_catch_up(snapshot) {
                        None::<u64>
                    } else if old(self).spec_below_exit_threshold_since() is Some {
                        old(self).spec_below_exit_threshold_since()
                    } else {
                        Some(now_ms)
                    })
            },
    {
        if !should_exit_catch_up(snapshot) {
            self.below_exit_threshold_since = None;
            return;
        }

        match self.below_exit_threshold_since {
            Some(since) => {
                if age_ms(now_ms, since) >= EXIT_HOLD_MS {
                    self.mode = ChunkingMode::Smooth;
                    self.below_exit_threshold_since = None;
                    self.last_catch_up_exit_at = Some(now_ms);
                }
            },
            None => {
                self.below_exit_threshold_since = Some(now_ms);
            },
        }
    }

    fn note_catch_up_exit(&mut self, now_ms: u64)
        ensures
            final(self).spec_mode() == old(self).spec_mode(),
            final(self).spec_below_exit_threshold_since()
                == old(self).spec_below_exit_threshold_since(),
            final(self).spec_last_catch_up_exit_at() == (
                if old(self).spec_mode() is CatchUp {
                    Some(now_ms)
                } else {
                    old(self).spec_last_catch_up_exit_at()
                }),
    {
        if matches!(self.mode, ChunkingMode::CatchUp) {
            self.last_catch_up_exit_at = Some(now_ms);
        }
    }

    fn reentry_hold_active(&self, now_ms: u64) -> (r: bool)
        ensures
            r == self.spec_reentry_hold_active(now_ms),
    {
        match self.last_catch_up_exit_at {
            Some(exit) => age_ms(now_ms, exit) < REENTER_CATCH_UP_HOLD_MS,
            None => false,
        }
    }
}

/// Milliseconds elapsed from `since` to `now`, saturating at zero.
pub fn age_ms(now: u64, since: u64) -> (r: u64)
    ensures
        r == spec_age_ms(now, since),
{
    if now >= since {
        now - since
    } else {
        0
    }
}

pub fn should_enter_catch_up(snapshot: QueueSnapshot) -> (r: bool)
    ensures
        r == spec_should_enter_catch_up(snapshot),
{
    snapshot.queued_lines >= ENTER_QUEUE_DEPTH_LINES || (match snapshot.oldest_age_ms {
        Some(oldest) => oldest >= ENTER_OLDEST_AGE_MS,
        None => false,
    })
}

pub fn should_exit_catch_up(snapshot: QueueSnapshot) -> (r: bool)
    ensures
        r == spec_should_exit_catch_up(snapshot),
{
    snapshot.queued_lines <= EXIT_QUEUE_DEPTH_LINES && (match snapshot.oldest_age_ms {
        Some(oldest) => oldest <= EXIT_OLDEST_AGE_MS,
        None => false,
    })
}

pub fn is_severe_backlog(snapshot: QueueSnapshot) -> (r: bool)
    ensures
        r == spec_is_severe_backlog(snapshot),
{
    snapshot.queued_lines >= SEVERE_QUEUE_DEPTH_LINES || (match snapshot.oldest_age_ms {
        Some(oldest) => oldest >= SEVERE_OLDEST_AGE_MS,
        None => false,
    })
}


/// Law: in smooth mode with no recent catch-up exit, a snapshot whose queue
/// depth reaches the entry threshold makes the next decision enter catch-up
/// and drain the whole backlog in one batch.
pub proof fn lemma_depth_threshold_enters_catch_up(
    p: AdaptiveChunkingPolicy,
    s: QueueSnapshot,
    now: u64,
)
    requires
        p.spec_mode() is Smooth,
        p.spec_last_catch_up_exit_at() is None,
        s.queued_lines >= ENTER_QUEUE_DEPTH_LINES,
    ensures
        p.spec_decision(s, now).mode is CatchUp,
        p.spec_decision(s, now).entered_catch_up,
        p.spec_decision(s, now).drain_plan == DrainPlan::Batch(s.queued_lines),
        p.spec_step(s, now).spec_mode() is CatchUp,
{
}

/// Law: in catch-up mode, once the queue has stayed at or below the exit
/// thresholds since `t_drop`, a decision taken at least the exit-hold window
/// after `t_drop` returns to smooth mode.
pub proof fn lemma_sustained_drop_exits_catch_up(
    p: AdaptiveChunkingPolicy,
    s: QueueSnapshot,
    t_drop: u64,
    now: u64,
)
    requires
        p.spec_mode() is CatchUp,
        p.spec_below_exit_threshold_since() == Some(t_drop),
        spec_should_exit_catch_up(s),
        s.queued_lines > 0,
        now >= t_drop,
        now - t_drop >= EXIT_HOLD_MS,
    ensures
        p.spec_step(s, now).spec_mode() is Smooth,
        p.spec_decision(s, now).mode is Smooth,
        p.spec_step(s, now).spec_last_catch_up_exit_at() == Some(now),
{
}

/// Law: within the re-entry hold window after a catch-up exit, a backlog that
/// meets the ordinary entry thresholds but is not severe does not re-enter
/// catch-up; a severe backlog does.
pub proof fn lemma_reentry_hold_requires_severe_backlog(
    p: AdaptiveChunkingPolicy,
    s: QueueSnapshot,
    t_exit: u64,
    now: u64,
)
    requires
        p.spec_mode() is Smooth,
        p.spec_last_catch_up_exit_at() == Some(t_exit),
        now >= t_exit,
        now - t_exit < REENTER_CATCH_UP_HOLD_MS,
        s.queued_lines > 0,
        spec_should_enter_catch_up(s),
    ensures
        !spec_is_severe_backlog(s) ==> p.spec_step(s, now).spec_mode() is Smooth,
        spec_is_severe_backlog(s) ==> {
            &&& p.spec_step(s, now).spec_mode() is CatchUp
            &&& p.spec_decision(s, now).entered_catch_up
        },
{
}

} // verus!

