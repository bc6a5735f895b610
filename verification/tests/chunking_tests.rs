use term_chat_ui::chunking::{AdaptiveChunkingPolicy, ChunkingMode, DrainPlan, QueueSnapshot};

fn snapshot(queued_lines: usize, oldest_age_ms: u64) -> QueueSnapshot {
    QueueSnapshot { queued_lines, oldest_age_ms: Some(oldest_age_ms) }
}

#[test]
fn enters_catch_up_on_depth_threshold() {
    let mut policy = AdaptiveChunkingPolicy::new();
    let now: u64 = 0;
    let decision = policy.decide(snapshot(8, 10), now);
    assert_eq!(decision.mode, ChunkingMode::CatchUp);
    assert_eq!(decision.drain_plan, DrainPlan::Batch(8));
}

#[test]
fn exits_catch_up_after_hold_window() {
    let mut policy = AdaptiveChunkingPolicy::new();
    let t0: u64 = 0;
    let _ = policy.decide(snapshot(9, 10), t0);
    assert_eq!(policy.mode(), ChunkingMode::CatchUp);

    let _ = policy.decide(snapshot(1, 10), t0 + 50);
    assert_eq!(policy.mode(), ChunkingMode::CatchUp);

    let _ = policy.decide(snapshot(1, 10), t0 + 350);
    assert_eq!(policy.mode(), ChunkingMode::Smooth);
}

#[test]
fn enters_catch_up_on_age_threshold() {
    let mut policy = AdaptiveChunkingPolicy::new();
    let decision = policy.decide(snapshot(1, 120), 0);
    assert_eq!(decision.mode, ChunkingMode::CatchUp);
    assert!(decision.entered_catch_up);
}

#[test]
fn reentry_within_hold_needs_severe_backlog() {
    let mut policy = AdaptiveChunkingPolicy::new();
    let _ = policy.decide(snapshot(9, 10), 0);
    let _ = policy.decide(snapshot(1, 10), 50);
    let _ = policy.decide(snapshot(1, 10), 350);
    assert_eq!(policy.mode(), ChunkingMode::Smooth);

    // An ordinary backlog within the re-entry hold stays smooth.
    let d = policy.decide(snapshot(8, 10), 400);
    assert_eq!(d.mode, ChunkingMode::Smooth);
    assert!(!d.entered_catch_up);

    // A severe backlog overrides the hold.
    let d = policy.decide(snapshot(64, 10), 450);
    assert_eq!(d.mode, ChunkingMode::CatchUp);
    assert!(d.entered_catch_up);
}

#[test]
fn empty_queue_forces_smooth() {
    let mut policy = AdaptiveChunkingPolicy::new();
    let _ = policy.decide(snapshot(9, 10), 0);
    assert_eq!(policy.mode(), ChunkingMode::CatchUp);
    let d = policy.decide(QueueSnapshot { queued_lines: 0, oldest_age_ms: None }, 10);
    assert_eq!(d.mode, ChunkingMode::Smooth);
    assert_eq!(d.drain_plan, DrainPlan::Single);
}
