use ks_ui::chat::{
    agent_status_label, drag_width, format_relative_time, is_leap_year, parse_iso_timestamp, poll_step,
    relative_time_at, PolledMessage, PollStep, CHAT_DEFAULT_WIDTH, CHAT_MAX_WIDTH, CHAT_MIN_WIDTH,
};

#[test]
fn dragging_the_panel_edge_clamps_the_width() {
    assert_eq!(drag_width(CHAT_DEFAULT_WIDTH, 1000, 900), 480);
    assert_eq!(drag_width(CHAT_DEFAULT_WIDTH, 1000, 1200), CHAT_MIN_WIDTH);
    assert_eq!(drag_width(CHAT_DEFAULT_WIDTH, 1000, 0), CHAT_MAX_WIDTH);
    assert_eq!(drag_width(300, 500, 520), 280);
}

#[test]
fn leap_years() {
    assert!(is_leap_year(2024));
    assert!(!is_leap_year(2023));
    assert!(!is_leap_year(1900));
    assert!(is_leap_year(2000));
}

#[test]
fn iso_timestamps() {
    assert_eq!(parse_iso_timestamp("2025-01-15T10:30:00Z"), Some(1736937000));
    assert_eq!(parse_iso_timestamp("2025-01-15T10:30:00.123Z"), Some(1736937000));
    assert_eq!(parse_iso_timestamp("  2024-02-29T23:59:59+02:00 "), Some(1709251199));
    assert_eq!(parse_iso_timestamp("1970-01-01T00:00Z"), Some(0));
    assert_eq!(parse_iso_timestamp("2000-03-01T00:00:00"), Some(951868800));
    assert_eq!(parse_iso_timestamp("2025-01-15"), None);
    assert_eq!(parse_iso_timestamp("2025-01T10:30:00Z"), None);
    assert_eq!(parse_iso_timestamp("2025-01-15T10Z"), None);
    assert_eq!(parse_iso_timestamp("yyyy-01-15T10:30:00Z"), None);
    assert_eq!(parse_iso_timestamp("2025-01-15T10:30:xxZ"), Some(1736937000));
}

#[test]
fn relative_times() {
    let ts = "2025-01-15T10:30:00Z";
    let t: u64 = 1736937000;
    assert_eq!(relative_time_at(ts, t), "now");
    assert_eq!(relative_time_at(ts, t - 5), "now");
    assert_eq!(relative_time_at(ts, t + 42), "42s ago");
    assert_eq!(relative_time_at(ts, t + 150), "2m ago");
    assert_eq!(relative_time_at(ts, t + 7200), "2h ago");
    assert_eq!(relative_time_at(ts, t + 3 * 86400 + 5), "3d ago");
    assert_eq!(relative_time_at("garbage", t), "now");
    assert!(format_relative_time("2020-01-01T00:00:00Z").ends_with("d ago"));
}

#[test]
fn status_labels() {
    assert_eq!(agent_status_label("STREAMING"), "Responding...");
    assert_eq!(agent_status_label("EXECUTING_TOOLS"), "Running tools...");
    assert_eq!(agent_status_label("AWAITING_CONSENT"), "Waiting for approval...");
    assert_eq!(agent_status_label("AWAITING_CLIENT_TOOLS"), "Running client tools...");
    assert_eq!(agent_status_label("PROCESSING"), "Thinking...");
}

fn msg(sender: &str, text: &str) -> PolledMessage {
    PolledMessage { sender_type: sender.to_string(), text: text.to_string() }
}

#[test]
fn polling_finishes_when_the_agent_answered() {
    let ms = vec![msg("USER", "hi"), msg("AGENT", "hello")];
    assert_eq!(
        poll_step(true, "IDLE", &ms),
        PollStep { show_status: true, show_messages: true, finish: true, stop: false }
    );
    assert_eq!(
        poll_step(false, "STREAM_END", &ms),
        PollStep { show_status: false, show_messages: false, finish: false, stop: true }
    );
}

#[test]
fn polling_goes_on_while_the_agent_works() {
    let ms = vec![msg("USER", "hi"), msg("AGENT", "")];
    assert_eq!(
        poll_step(true, "IDLE", &ms),
        PollStep { show_status: true, show_messages: true, finish: false, stop: false }
    );
    let ms = vec![msg("AGENT", "partial")];
    assert_eq!(
        poll_step(true, "STREAMING", &ms),
        PollStep { show_status: true, show_messages: true, finish: false, stop: false }
    );
    assert_eq!(
        poll_step(true, "ERROR", &vec![]),
        PollStep { show_status: true, show_messages: false, finish: false, stop: false }
    );
}

use ks_ui::chat::{
    chat_token, conversation_title, find_kubestudio_agent, is_send_key, message_layout, outgoing_text,
    tool_status_class, toggle_expanded, ChatMessage, MessageBlock, MessagePart, ToolCallInfo,
};
use ks_ui::hotkeys::{KeyEvent, KeyName};

fn tool(status: &str) -> ToolCallInfo {
    ToolCallInfo {
        id: "t1".to_string(),
        name: "list_clusters".to_string(),
        status: status.to_string(),
        arguments: None,
        result: None,
        error: None,
    }
}

#[test]
fn tool_status_classes() {
    assert_eq!(tool_status_class("completed"), "tool-status-success");
    assert_eq!(tool_status_class("success"), "tool-status-success");
    assert_eq!(tool_status_class("failed"), "tool-status-error");
    assert_eq!(tool_status_class("error"), "tool-status-error");
    assert_eq!(tool_status_class("running"), "tool-status-pending");
}

#[test]
fn messages_render_markdown_per_part() {
    let m = ChatMessage {
        id: "m1".to_string(),
        sender_type: "AGENT".to_string(),
        sender_name: "kubestudio".to_string(),
        text: String::new(),
        parts: vec![
            MessagePart::Text("**bold** and ~~gone~~".to_string()),
            MessagePart::Thinking("hmm <b>".to_string()),
            MessagePart::ToolCall(tool("completed")),
        ],
    };
    let l = message_layout(&m);
    assert_eq!(l.bubble_class, "chat-bubble chat-bubble-agent");
    assert_eq!(l.sender, "kubestudio");
    assert_eq!(l.blocks.len(), 3);
    match &l.blocks[0] {
        MessageBlock::Html(h) => assert_eq!(h, "<p><strong>bold</strong> and <del>gone</del></p>\n"),
        _ => panic!("expected html"),
    }
    match &l.blocks[1] {
        MessageBlock::Thinking(t) => assert_eq!(t, "hmm <b>"),
        _ => panic!("expected thinking"),
    }
    assert!(matches!(l.blocks[2], MessageBlock::Tool(2, "tool-status-success")));
}

#[test]
fn user_messages_without_parts_render_their_text() {
    let m = ChatMessage {
        id: "m2".to_string(),
        sender_type: "USER".to_string(),
        sender_name: "alice".to_string(),
        text: "| a | b |\n|---|---|\n| 1 | 2 |".to_string(),
        parts: vec![],
    };
    let l = message_layout(&m);
    assert_eq!(l.bubble_class, "chat-bubble chat-bubble-user");
    assert_eq!(l.sender, "You");
    match &l.blocks[0] {
        MessageBlock::Html(h) => assert!(h.starts_with("<table>")),
        _ => panic!("expected html"),
    }
}

#[test]
fn tool_calls_toggle_open_and_closed() {
    let mut open: Vec<String> = vec!["a".to_string()];
    toggle_expanded(&mut open, "b");
    assert_eq!(open, vec!["a".to_string(), "b".to_string()]);
    toggle_expanded(&mut open, "a");
    assert_eq!(open, vec!["b".to_string()]);
    toggle_expanded(&mut open, "b");
    assert!(open.is_empty());
}

#[test]
fn chat_inputs() {
    assert_eq!(chat_token("", "prop"), "prop");
    assert_eq!(chat_token("session", "prop"), "session");
    let names = vec!["Helper".to_string(), "My KubeStudio Agent".to_string(), "kubestudio".to_string()];
    assert_eq!(find_kubestudio_agent(&names), Some(1));
    assert_eq!(find_kubestudio_agent(&vec!["other".to_string()]), None);
    assert_eq!(outgoing_text("  hi there \n", false).as_deref(), Some("hi there"));
    assert_eq!(outgoing_text("   ", false), None);
    assert_eq!(outgoing_text("hi", true), None);
    let enter = KeyEvent { key: KeyName::Enter, ctrl: false, shift: false, alt: false, meta: false, code_key: None };
    assert!(is_send_key(&enter));
    assert!(!is_send_key(&KeyEvent { shift: true, ..enter }));
}

#[test]
fn conversation_titles() {
    assert_eq!(conversation_title(""), "Untitled");
    assert_eq!(conversation_title("Short"), "Short");
    let forty = "a".repeat(40);
    assert_eq!(conversation_title(&forty), forty);
    let long = "b".repeat(45);
    assert_eq!(conversation_title(&long), format!("{}...", "b".repeat(37)));
}
