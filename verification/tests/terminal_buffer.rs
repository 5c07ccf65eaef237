use ks_ui::terminal::TerminalBuffer;

fn lines(t: &TerminalBuffer) -> Vec<String> {
    t.get_lines()
}

#[test]
fn new_buffer_has_one_empty_line() {
    let t = TerminalBuffer::default();
    assert_eq!(lines(&t), vec![String::new()]);
}

#[test]
fn plain_text_and_newlines() {
    let mut t = TerminalBuffer::default();
    t.process(b"hello\nworld");
    assert_eq!(lines(&t), vec!["hello".to_string(), "world".to_string()]);
}

#[test]
fn carriage_return_overwrites() {
    let mut t = TerminalBuffer::default();
    t.process(b"abcdef\rXY");
    assert_eq!(lines(&t), vec!["XYcdef".to_string()]);
}

#[test]
fn backspace_deletes_previous_character() {
    let mut t = TerminalBuffer::default();
    t.process(b"abc\x08\x08Z");
    assert_eq!(lines(&t), vec!["aZ".to_string()]);
}

#[test]
fn tab_moves_to_next_stop() {
    let mut t = TerminalBuffer::default();
    t.process(b"ab\tc");
    assert_eq!(lines(&t), vec!["ab      c".to_string()]);
}

#[test]
fn csi_clear_screen_resets() {
    let mut t = TerminalBuffer::default();
    t.process(b"one\ntwo\nthree\x1b[2Jx");
    assert_eq!(lines(&t), vec!["x".to_string()]);
}

#[test]
fn csi_erase_line_to_end() {
    let mut t = TerminalBuffer::default();
    t.process(b"hello world\x1b[6D\x1b[K");
    assert_eq!(lines(&t), vec!["hello".to_string()]);
}

#[test]
fn csi_erase_line_start_blanks() {
    let mut t = TerminalBuffer::default();
    t.process(b"hello\x1b[3D\x1b[1K");
    assert_eq!(lines(&t), vec!["  llo".to_string()]);
}

#[test]
fn csi_cursor_position_pads() {
    let mut t = TerminalBuffer::default();
    t.process(b"\x1b[3;4Hx");
    assert_eq!(lines(&t), vec![String::new(), String::new(), "   x".to_string()]);
}

#[test]
fn csi_cursor_up_and_down() {
    let mut t = TerminalBuffer::default();
    t.process(b"a\nb\x1b[AX\x1b[2BY");
    assert_eq!(lines(&t), vec!["aX".to_string(), "b".to_string(), "  Y".to_string()]);
}

#[test]
fn csi_delete_characters() {
    let mut t = TerminalBuffer::default();
    t.process(b"abcdef\x1b[4D\x1b[2P");
    assert_eq!(lines(&t), vec!["abef".to_string()]);
}

#[test]
fn csi_erase_display_below() {
    let mut t = TerminalBuffer::default();
    t.process(b"one\ntwo\nthree\x1b[2A\r\x1b[2C\x1b[J");
    assert_eq!(lines(&t), vec!["on".to_string()]);
}

#[test]
fn csi_erase_display_above() {
    let mut t = TerminalBuffer::default();
    t.process(b"one\ntwo\nthree\x1b[1A\x1b[1J");
    assert_eq!(lines(&t), vec![String::new(), "   ".to_string(), "three".to_string()]);
}

#[test]
fn sgr_and_osc_are_ignored() {
    let mut t = TerminalBuffer::default();
    t.process(b"\x1b[1;31mred\x1b[0m \x1b]0;title\x07ok");
    assert_eq!(lines(&t), vec!["red ok".to_string()]);
}

#[test]
fn control_characters_are_ignored() {
    let mut t = TerminalBuffer::default();
    t.process(b"a\x01\x02b");
    assert_eq!(lines(&t), vec!["ab".to_string()]);
}

#[test]
fn invalid_utf8_becomes_replacement_character() {
    let mut t = TerminalBuffer::default();
    t.process(b"ab\xff");
    assert_eq!(lines(&t), vec!["ab\u{fffd}".to_string()]);
}

#[test]
fn writing_after_a_replacement_character() {
    let mut t = TerminalBuffer::default();
    assert!(t.try_process(b"a\xffb"));
    assert_eq!(lines(&t), vec!["a\u{fffd}b".to_string()]);
}

#[test]
fn buffer_keeps_at_most_a_thousand_lines() {
    let mut t = TerminalBuffer::default();
    let mut data = Vec::new();
    for i in 0..1205 {
        data.extend_from_slice(format!("line{}\n", i).as_bytes());
    }
    t.process(&data);
    let l = lines(&t);
    assert_eq!(l.len(), 1000);
    assert_eq!(l[0], "line206");
    assert_eq!(l[998], "line1204");
    assert_eq!(l[999], "");
}

#[test]
fn columns_count_characters() {
    let mut t = TerminalBuffer::default();
    t.process("héllo".as_bytes());
    assert_eq!(lines(&t), vec!["héllo".to_string()]);
    assert!(t.try_process(b"x"));
    assert_eq!(lines(&t), vec!["héllox".to_string()]);
    t.process(b"\x08\x08\x08Z");
    assert_eq!(lines(&t), vec!["hélZ".to_string()]);
    t.process("\r\x1b[2CÜ".as_bytes());
    assert_eq!(lines(&t), vec!["héÜZ".to_string()]);
}

#[test]
fn many_newlines_keep_the_newest_thousand_lines() {
    let mut t = TerminalBuffer::default();
    t.process(&[b'\n'; 1500]);
    assert_eq!(lines(&t).len(), 1000);
    t.process(b"end");
    let l = lines(&t);
    assert_eq!(l.len(), 1000);
    assert_eq!(l[999], "end");
}

#[test]
fn try_process_applies_valid_input() {
    let mut t = TerminalBuffer::default();
    assert!(t.try_process(b"abc\n"));
    assert_eq!(lines(&t), vec!["abc".to_string(), String::new()]);
}

#[test]
fn process_chars_matches_process() {
    let mut a = TerminalBuffer::default();
    let mut b = TerminalBuffer::default();
    a.process(b"x\ty\n\x1b[1Az");
    let chars: Vec<char> = "x\ty\n\x1b[1Az".chars().collect();
    b.process_chars(&chars);
    assert_eq!(lines(&a), lines(&b));
}

use ks_ui::terminal::{connected_banner, connecting_banner, session_badge, SESSION_ENDED};

#[test]
fn shell_session_messages() {
    assert_eq!(connecting_banner("web-1", &Some("app".to_string())), "Connecting to web-1 (app)...\n");
    assert_eq!(connecting_banner("web-1", &None), "Connecting to web-1...\n");
    assert_eq!(connected_banner("web-1", "prod"), "Connected to web-1 in prod\n\n");
    assert_eq!(SESSION_ENDED, "\n--- Session ended ---\n");
    assert_eq!(session_badge(true, false), ("status-badge status-warning", "Connecting..."));
    assert_eq!(session_badge(false, true), ("status-badge status-success", "Connected"));
    assert_eq!(session_badge(false, false), ("status-badge status-error", "Disconnected"));
}
