use term_chat_ui::renderer::{TerminalRenderer, PlanItem, PlanItemStatus, PlanState};
use term_chat_ui::message::ToolStatus;
use term_chat_ui::session_control::{escape_outcome, EscapeOutcome};
use term_chat_ui::style::StyledLine;

fn plain(l: &StyledLine) -> String {
    l.plain_text().iter().collect()
}

fn is_blank(l: &StyledLine) -> bool {
    plain(l).chars().all(|c| c == ' ')
}

#[test]
fn thinking_text_then_tool_has_single_blank_before_tool() {
    let mut r = TerminalRenderer::new(None);
    r.prepare(80, 24, 0);
    r.start_new_message(1, 0);
    r.queue_thinking_delta("Let me think about this.\n", 0);
    r.queue_text_delta("Here is my answer.\n", 0);
    r.start_tool_use_block("write_file".to_string(), "t1".to_string(), 0);
    r.add_or_update_tool_parameter("t1", "path".to_string(), "/tmp/test.txt".to_string());
    r.update_tool_status("t1", ToolStatus::Success, None, None);
    r.flush_streaming_pending(0);
    r.transcript.finalize_active_if_content();
    r.flush_new_finalized_messages(80);
    let lines = r.drain_pending_history_lines();
    let texts: Vec<String> = lines.iter().map(plain).collect();
    let header = texts
        .iter()
        .position(|t| t.starts_with("\u{25cf} write_file"))
        .expect("tool header missing");
    assert!(header >= 1, "no line before the tool header");
    assert!(is_blank(&lines[header - 1]), "line before tool header not blank");
    assert!(
        !is_blank(&lines[header - 2]),
        "more than one blank before tool header"
    );
}

#[test]
fn two_tools_with_text_between_have_single_blanks() {
    let mut r = TerminalRenderer::new(None);
    r.prepare(80, 24, 0);
    r.start_new_message(1, 0);
    r.queue_text_delta("First.\n", 0);
    r.start_tool_use_block("edit".to_string(), "t1".to_string(), 0);
    r.update_tool_status("t1", ToolStatus::Success, None, None);
    r.queue_text_delta("Second.\n", 0);
    r.start_tool_use_block("execute_command".to_string(), "t2".to_string(), 0);
    r.update_tool_status(
        "t2",
        ToolStatus::Success,
        None,
        Some("test result: ok\n".to_string()),
    );
    r.flush_streaming_pending(0);
    r.transcript.finalize_active_if_content();
    r.flush_new_finalized_messages(80);
    let lines = r.drain_pending_history_lines();
    let texts: Vec<String> = lines.iter().map(plain).collect();
    for (name, _) in [("\u{25cf} edit", ()), ("\u{25cf} execute_command", ())] {
        let header = texts
            .iter()
            .position(|t| t.starts_with(name))
            .unwrap_or_else(|| panic!("{} header missing in {:?}", name, texts));
        assert!(header >= 1);
        assert!(
            is_blank(&lines[header - 1]),
            "line before {} not blank: {:?}",
            name,
            texts
        );
        assert!(
            !is_blank(&lines[header - 2]),
            "more than one blank before {}: {:?}",
            name,
            texts
        );
    }
}

#[test]
fn test_plan_collapsed_summary_rendering() {
    let mut r = TerminalRenderer::new(None);
    let entries = vec![
        PlanItem { content: "Ship feature".to_string(), status: PlanItemStatus::Completed },
        PlanItem {
            content: "Update documentation".to_string(),
            status: PlanItemStatus::Pending,
        },
        PlanItem { content: "Review changes".to_string(), status: PlanItemStatus::Pending },
        PlanItem { content: "Publish release".to_string(), status: PlanItemStatus::Pending },
    ];
    r.set_plan_state(Some(PlanState { entries }));
    r.set_plan_expanded(false);
    let text = r.build_plan_text().expect("plan text missing");
    assert!(
        text.contains("Plan: Update documentation (2 of 4)"),
        "unexpected plan text: {}",
        text
    );
}

#[test]
fn test_plan_expanded_rendering_limits_entries() {
    let mut r = TerminalRenderer::new(None);
    let entries = vec![
        PlanItem { content: "Draft summary".to_string(), status: PlanItemStatus::Completed },
        PlanItem { content: "Backfill tests".to_string(), status: PlanItemStatus::Completed },
        PlanItem { content: "Wire the endpoint".to_string(), status: PlanItemStatus::Pending },
        PlanItem { content: "Refactor module".to_string(), status: PlanItemStatus::InProgress },
        PlanItem { content: "Polish the docs".to_string(), status: PlanItemStatus::Pending },
        PlanItem { content: "Tag the release".to_string(), status: PlanItemStatus::Completed },
    ];
    r.set_plan_state(Some(PlanState { entries }));
    r.set_plan_expanded(true);
    let text = r.build_plan_text().expect("plan text missing");
    assert!(text.contains("Plan (+2 hidden)"), "unexpected header: {}", text);
    assert!(text.contains("[~] Refactor module"));
    assert!(!text.contains("Draft summary"));
    assert!(!text.contains("Backfill tests"));
    let item_lines: Vec<&str> = text.lines().skip(1).collect();
    assert_eq!(item_lines.len(), 4, "expected a four-item window: {}", text);
}

#[test]
fn escape_cascade() {
    // An error wins, then info, then cancellation; idle sessions report
    // nothing running.
    assert_eq!(escape_outcome(true, true, true, false), EscapeOutcome::DismissError);
    assert_eq!(escape_outcome(false, true, true, false), EscapeOutcome::DismissInfo);
    assert_eq!(escape_outcome(false, false, true, false), EscapeOutcome::RequestCancel);
    assert_eq!(escape_outcome(false, false, true, true), EscapeOutcome::NothingRunning);
    assert_eq!(escape_outcome(false, false, false, false), EscapeOutcome::NoSession);

    let mut r = TerminalRenderer::new(None);
    r.set_error("X".to_string());
    r.set_info("Y".to_string());
    assert!(r.has_error());
    r.clear_error();
    assert!(!r.has_error());
    assert!(matches!(r.info_message, Some(_)));
    r.clear_info();
    assert!(matches!(r.info_message, None));
}

#[test]
fn overlay_defers_history_and_flushes_in_order() {
    let mut r = TerminalRenderer::new(None);
    r.set_overlay_active(true);
    r.add_instruction_message("first note");
    r.add_instruction_message("second note");
    r.prepare(80, 24, 0);
    let pending = r.drain_pending_history_lines();
    assert!(pending.is_empty(), "pending grew while the overlay was active");
    assert!(r.deferred_history_lines.len() > 0);

    r.set_overlay_active(false);
    r.prepare(80, 24, 0);
    let pending = r.drain_pending_history_lines();
    let texts: Vec<String> = pending.iter().map(plain).collect();
    let a = texts.iter().position(|t| t.contains("first note")).expect("first missing");
    let b = texts.iter().position(|t| t.contains("second note")).expect("second missing");
    assert!(a < b, "deferred lines lost their order: {:?}", texts);
}

#[test]
fn late_stream_delta_after_stop_is_ignored() {
    let mut r = TerminalRenderer::new(None);
    r.start_new_message(1, 0);
    r.queue_text_delta("kept\n", 0);
    r.flush_streaming_pending(0);
    // The stream is closed but the message is still active: the delta drops.
    r.queue_text_delta("dropped\n", 0);
    r.flush_streaming_pending(0);
    r.transcript.finalize_active_if_content();
    r.flush_new_finalized_messages(80);
    let lines = r.drain_pending_history_lines();
    let all: String = lines.iter().map(plain).collect::<Vec<_>>().join("\n");
    assert!(all.contains("kept"));
    assert!(!all.contains("dropped"));
}

#[test]
fn pre_start_delta_recovers_streaming_state() {
    let mut r = TerminalRenderer::new(None);
    r.queue_text_delta("recovered\n", 0);
    assert!(r.streaming_open);
    r.flush_streaming_pending(0);
    r.transcript.finalize_active_if_content();
    r.flush_new_finalized_messages(80);
    let lines = r.drain_pending_history_lines();
    let all: String = lines.iter().map(plain).collect::<Vec<_>>().join("\n");
    assert!(all.contains("recovered"));
}

#[test]
fn user_message_joins_history_with_prefix() {
    let mut r = TerminalRenderer::new(None);
    r.add_user_message("hello there", 0);
    r.flush_new_finalized_messages(80);
    let lines = r.drain_pending_history_lines();
    let all: String = lines.iter().map(plain).collect::<Vec<_>>().join("\n");
    assert!(all.contains("\u{203a} hello there"), "missing user prefix: {}", all);
}

#[test]
fn committed_messages_all_have_content() {
    let mut r = TerminalRenderer::new(None);
    r.start_new_message(1, 0);
    // An empty active message never joins the committed history.
    r.transcript.finalize_active_if_content();
    assert_eq!(r.transcript.committed_messages.len(), 0);

    r.start_new_message(2, 0);
    // Fully drained stream content lives in scrollback, not in the message;
    // a tool block gives the message content of its own.
    r.queue_text_delta("real content\n", 0);
    r.start_tool_use_block("execute_command".to_string(), "t1".to_string(), 0);
    r.flush_streaming_pending(0);
    r.transcript.finalize_active_if_content();
    assert_eq!(r.transcript.committed_messages.len(), 1);
    let lines = r.drain_pending_history_lines();
    let all: String = lines.iter().map(plain).collect::<Vec<_>>().join("\n");
    assert!(all.contains("real content"));
}
