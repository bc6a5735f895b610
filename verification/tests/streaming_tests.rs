use term_chat_ui::markdown::MarkdownStreamCollector;
use term_chat_ui::streaming::{StreamingController, StreamKind};

#[test]
fn no_commit_until_newline() {
    let mut collector = MarkdownStreamCollector::new(None);
    collector.push_delta("hello");
    assert!(collector.commit_complete_lines().is_empty());

    collector.push_delta(" world\n");
    let lines = collector.commit_complete_lines();
    assert_eq!(lines.len(), 1);
}

#[test]
fn finalize_commits_partial_line() {
    let mut collector = MarkdownStreamCollector::new(None);
    collector.push_delta("tail");
    let lines = collector.finalize_and_drain();
    assert_eq!(lines.len(), 1);
}

#[test]
fn width_aware_commit_wraps_like_render_path() {
    let mut collector = MarkdownStreamCollector::new(Some(5));
    collector.push_delta("hello world\n");
    let lines = collector.commit_complete_lines();
    assert!(
        lines.len() >= 2,
        "expected wrapped output, got {} lines",
        lines.len()
    );
}

#[test]
fn commit_content_matches_source() {
    let mut collector = MarkdownStreamCollector::new(None);
    collector.push_delta("hello world\n");
    let lines = collector.commit_complete_lines();
    assert_eq!(lines.len(), 1);
    let text: String = lines[0].plain_text().iter().collect();
    assert_eq!(text, "hello world");
}

#[test]
fn newline_gating_commits_only_complete_lines() {
    let mut controller = StreamingController::new();
    controller.push(StreamKind::Text, "hello", 0);
    let drained = controller.drain_commit_tick_at(0);
    assert!(drained.text.is_empty());

    controller.push(StreamKind::Text, " world\nnext", 0);
    let drained = controller.drain_commit_tick_at(0);
    assert_eq!(drained.text.len(), 1);
    assert_eq!(controller.tail_text(StreamKind::Text), "next");
}

#[test]
fn flush_pending_drains_queue_and_partials() {
    let mut controller = StreamingController::new();
    controller.push(StreamKind::Text, "line\n", 0);
    controller.push(StreamKind::Text, "tail", 0);

    let drained = controller.flush_pending_at(0);
    assert_eq!(drained.text.len(), 2);
    assert!(controller.tail_text(StreamKind::Text).is_empty());
}

#[test]
fn identical_consecutive_deltas_are_preserved() {
    let mut controller = StreamingController::new();
    controller.push(StreamKind::Text, "dup line\n", 0);
    controller.push(StreamKind::Text, "dup line\n", 0);

    let drained = controller.flush_pending_at(0);
    assert_eq!(drained.text.len(), 2);
}

#[test]
fn drained_lines_plus_tail_cover_all_deltas() {
    // Everything pushed is either committed (rendered from the prefix up to
    // the last newline) or still visible in the live tail.
    let mut collector = MarkdownStreamCollector::new(None);
    collector.push_delta("alpha\nbeta\ngam");
    let committed = collector.commit_complete_lines();
    let drained: Vec<String> = committed
        .iter()
        .map(|l| l.plain_text().iter().collect::<String>())
        .collect();
    assert_eq!(drained, vec!["alpha".to_string(), "beta".to_string()]);
    assert_eq!(collector.current_tail(), "gam");
}
