use ks_ui::hotkeys::{
    detect_conflicts, get_commands, get_commands_with_tools, get_hotkeys, hotkey_from_event,
    is_modifier_or_escape, terminal_key, BindingEntry, KeyEvent, KeyName, ParsedHotkey, PluginConfig,
    PluginTool, TermKey, ViewState,
};

fn keys(v: &ViewState, view: &str, flags: [bool; 6]) -> Vec<(String, String)> {
    get_hotkeys(v, view, flags[0], flags[1], flags[2], flags[3], flags[4], flags[5])
        .into_iter()
        .map(|h| (h.key, h.description))
        .collect()
}

fn pairs(v: &[(&str, &str)]) -> Vec<(String, String)> {
    v.iter().map(|(a, b)| (a.to_string(), b.to_string())).collect()
}

#[test]
fn palette_lists_the_built_in_commands() {
    let c = get_commands();
    let ids: Vec<&str> = c.iter().map(|c| c.id.as_str()).collect();
    assert_eq!(ids, vec!["overview", "pods", "deployments", "services"]);
    assert_eq!(c[1].label, "View Pods");
    assert_eq!(c[1].shortcut.as_deref(), Some("1/p"));
}

#[test]
fn palette_appends_plugin_tools() {
    let cfg = PluginConfig { tools: vec![PluginTool { name: "k9s".to_string() }, PluginTool { name: "stern".to_string() }] };
    let c = get_commands_with_tools(&cfg);
    assert_eq!(c.len(), 6);
    assert_eq!(c[4].id, "tool:k9s");
    assert_eq!(c[4].label, "Launch k9s");
    assert_eq!(c[4].shortcut, None);
    assert_eq!(c[5].id, "tool:stern");
    let none = get_commands_with_tools(&PluginConfig { tools: vec![] });
    assert_eq!(none.len(), 4);
}

#[test]
fn overview_hotkeys() {
    let k = keys(&ViewState::ResourceList, "overview", [false; 6]);
    assert_eq!(k.len(), 9);
    assert_eq!(k[0], ("o".to_string(), "Overview".to_string()));
    assert_eq!(k[8], ("?".to_string(), "Help".to_string()));
}

#[test]
fn pod_list_hotkeys() {
    let k = keys(&ViewState::ResourceList, "pods", [true, false, false, false, false, false]);
    assert_eq!(
        k,
        pairs(&[
            ("d", "Describe"),
            ("^d", "Delete"),
            ("^k", "Kill"),
            ("l", "Logs"),
            ("s", "Shell"),
            ("f", "Forward"),
            ("/", "Search"),
            ("n", "Namespace"),
            ("←→", "Sidebar"),
            ("Esc", "Back"),
        ])
    );
}

#[test]
fn workload_list_hotkeys() {
    let dep = keys(&ViewState::ResourceList, "deployments", [false, false, true, false, false, false]);
    assert_eq!(dep[3], ("+/-".to_string(), "Scale".to_string()));
    assert_eq!(dep[4], ("R".to_string(), "Restart".to_string()));
    let ds = keys(&ViewState::ResourceList, "daemonsets", [false, false, false, false, true, false]);
    assert_eq!(ds[3], ("R".to_string(), "Restart".to_string()));
    assert_eq!(ds.len(), 8);
    let cj = keys(&ViewState::ResourceList, "cronjobs", [false, false, false, false, false, true]);
    assert_eq!(cj[3], ("T".to_string(), "Trigger".to_string()));
    let cm = keys(&ViewState::ResourceList, "configmaps", [false; 6]);
    assert_eq!(cm.len(), 7);
}

#[test]
fn viewer_hotkeys() {
    assert_eq!(keys(&ViewState::ApplyFile, "", [false; 6]), pairs(&[("Ctrl+Enter", "Apply"), ("Esc", "Cancel")]));
    let y = keys(&ViewState::YamlViewer, "pods", [true; 6]);
    assert_eq!(y.len(), 5);
    assert_eq!(y[0], ("c".to_string(), "Copy".to_string()));
    let e = keys(&ViewState::ExecViewer, "", [false; 6]);
    assert_eq!(e[2], ("Ctrl+C".to_string(), "Interrupt".to_string()));
    let cj = keys(&ViewState::CronJobJobs, "", [false; 6]);
    assert_eq!(cj[1], ("Enter".to_string(), "View Pods".to_string()));
}

fn ev(key: KeyName, ctrl: bool, shift: bool, alt: bool, meta: bool, code: Option<&str>) -> KeyEvent {
    KeyEvent { key, ctrl, shift, alt, meta, code_key: code.map(|s| s.to_string()) }
}

fn ch(s: &str) -> KeyName {
    KeyName::Character(s.to_string())
}

#[test]
fn recording_bindings() {
    assert_eq!(hotkey_from_event(&ev(ch("l"), true, true, false, false, None)).as_deref(), Some("Ctrl+Shift+l"));
    assert_eq!(hotkey_from_event(&ev(ch("k"), false, false, false, false, None)).as_deref(), Some("k"));
    assert_eq!(hotkey_from_event(&ev(KeyName::Enter, false, false, false, false, None)).as_deref(), Some("Enter"));
    assert_eq!(hotkey_from_event(&ev(KeyName::ArrowUp, false, true, false, false, None)).as_deref(), Some("Shift+ArrowUp"));
    assert_eq!(
        hotkey_from_event(&ev(KeyName::PageDown, false, false, true, false, Some("PageDown"))).as_deref(),
        Some("Alt+PageDown")
    );
    assert_eq!(hotkey_from_event(&ev(KeyName::ArrowUp, true, false, false, false, None)), None);
    // a control character typed with Ctrl falls back to the key code
    assert_eq!(hotkey_from_event(&ev(ch("\u{c}"), true, false, false, false, Some("l"))).as_deref(), Some("Ctrl+l"));
    assert_eq!(hotkey_from_event(&ev(ch("\u{c}"), true, false, false, false, None)), None);
    assert_eq!(hotkey_from_event(&ev(KeyName::Tab, false, false, false, true, Some("Tab"))).as_deref(), Some("Meta+Tab"));
}

#[test]
fn modifiers_and_escape_record_nothing() {
    for k in [KeyName::Control, KeyName::Shift, KeyName::Alt, KeyName::Meta, KeyName::Escape] {
        assert!(is_modifier_or_escape(&k));
        assert_eq!(hotkey_from_event(&ev(k, true, false, false, false, Some("x"))), None);
    }
    assert!(!is_modifier_or_escape(&KeyName::Enter));
    assert_eq!(hotkey_from_event(&ev(KeyName::Other, false, false, false, false, None)), None);
}

fn entry(action: &str, label: &str, value: &str, context: &str, ctrl: bool, key: &str) -> BindingEntry {
    BindingEntry {
        category: "General".to_string(),
        action_id: action.to_string(),
        label: label.to_string(),
        value: value.to_string(),
        context: context.to_string(),
        parsed: ParsedHotkey { ctrl, shift: false, alt: false, meta: false, key: key.to_string() },
    }
}

#[test]
fn conflicts_in_the_same_context() {
    let e = vec![
        entry("logs", "Logs", "l", "list", false, "l"),
        entry("shell", "Shell", "s", "list", false, "s"),
        entry("labels", "Labels", "L", "list", false, "L"),
        entry("scroll", "Scroll", "l", "viewer", false, "l"),
    ];
    assert_eq!(detect_conflicts(&e).as_deref(), Some("\"Logs\" and \"Labels\" both use L"));
}

#[test]
fn no_conflicts_across_contexts_or_modifiers() {
    let e = vec![
        entry("logs", "Logs", "l", "list", false, "l"),
        entry("clear", "Clear", "Ctrl+l", "list", true, "l"),
        entry("scroll", "Scroll", "l", "viewer", false, "l"),
        entry("unbound", "Unbound", "", "list", false, "l"),
    ];
    assert_eq!(detect_conflicts(&e), None);
    assert_eq!(detect_conflicts(&[]), None);
}

#[test]
fn several_conflicts_are_joined() {
    let e = vec![
        entry("a", "A", "x", "c", false, "x"),
        entry("b", "B", "x", "c", false, "x"),
        entry("c", "C", "X", "c", false, "X"),
    ];
    assert_eq!(
        detect_conflicts(&e).as_deref(),
        Some("\"A\" and \"B\" both use x; \"A\" and \"C\" both use X; \"B\" and \"C\" both use X")
    );
}

fn sent(k: TermKey) -> Option<Vec<u8>> {
    match k {
        TermKey::Send(b) => Some(b),
        _ => None,
    }
}

#[test]
fn terminal_keys() {
    let plain = |k: KeyName| ev(k, false, false, false, false, None);
    assert!(matches!(terminal_key(&plain(KeyName::Escape), true), TermKey::Back));
    assert!(matches!(terminal_key(&plain(KeyName::Escape), false), TermKey::Back));
    assert!(matches!(terminal_key(&plain(KeyName::Enter), false), TermKey::Ignore));
    assert_eq!(sent(terminal_key(&plain(KeyName::Enter), true)), Some(vec![0x0a]));
    assert_eq!(sent(terminal_key(&plain(KeyName::Backspace), true)), Some(vec![0x7f]));
    assert_eq!(sent(terminal_key(&plain(ch("é")), true)), Some("é".as_bytes().to_vec()));
    assert_eq!(sent(terminal_key(&ev(ch("C"), true, false, false, false, None), true)), Some(vec![0x03]));
    assert_eq!(sent(terminal_key(&ev(ch("w"), true, false, false, false, None), true)), Some(vec![0x17]));
    assert!(matches!(terminal_key(&ev(ch("q"), true, false, false, false, None), true), TermKey::Swallow));
    assert!(matches!(terminal_key(&ev(ch("q"), false, false, true, false, None), true), TermKey::Swallow));
    assert_eq!(sent(terminal_key(&plain(KeyName::Delete), true)), Some(vec![0x1b, 0x5b, 0x33, 0x7e]));
    assert_eq!(sent(terminal_key(&plain(KeyName::ArrowLeft), true)), Some(vec![0x1b, 0x5b, 0x44]));
    assert_eq!(sent(terminal_key(&plain(KeyName::Tab), true)), Some(vec![0x09]));
    assert!(matches!(terminal_key(&plain(KeyName::PageUp), true), TermKey::Ignore));
    assert_eq!(sent(terminal_key(&plain(ch("\u{7f}")), true)), Some(vec![0x7f]));
    assert_eq!(sent(terminal_key(&plain(ch("")), true)), Some(vec![]));
}
