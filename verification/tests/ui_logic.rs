use ks_ui::hotkeys::Command;
use ks_ui::resources::Condition;
use ks_ui::ui::{
    count_node_status, count_pod_status, count_yaml_documents, duration_label, filter_commands, get_completions,
    get_age, get_container_status, get_duration, get_event_age, get_job_status, get_log_line_class,
    get_overview_card_count, get_overview_card_target, get_resource_info, job_age_label, keep_last_lines,
    port_forward_ports, push_log_line, select_next, select_prev, warning_event_indices, ActionType,
    ContainerResources, ContainerStateInfo, JobRun, MAX_LOG_LINES,
};

#[test]
fn action_dialog_texts() {
    assert_eq!(ActionType::Restart.title(), "Restart Workload");
    assert_eq!(ActionType::Trigger.title(), "Trigger Job");
    assert_eq!(ActionType::Restart.button_text(), "Restart");
    assert_eq!(ActionType::Trigger.button_class(), "action-btn primary");
    assert_eq!(ActionType::Restart.button_class(), "action-btn warning");
    assert!(ActionType::Trigger.description().contains("CronJob"));
}

#[test]
fn yaml_documents_are_counted() {
    assert_eq!(count_yaml_documents("a: 1\n---\nb: 2\n---\nc: 3"), 3);
    assert_eq!(count_yaml_documents("---\na: 1\n---\n"), 1);
    assert_eq!(count_yaml_documents(""), 1);
    assert_eq!(count_yaml_documents("a: 1\n---\n   \n---\nb: 2"), 2);
}

#[test]
fn log_line_classes() {
    assert_eq!(get_log_line_class("2024 ERROR boom"), "log-line log-error");
    assert_eq!(get_log_line_class("Error: x (WARN)"), "log-line log-error");
    assert_eq!(get_log_line_class("WARN disk"), "log-line log-warn");
    assert_eq!(get_log_line_class("Warning: y"), "log-line log-warn");
    assert_eq!(get_log_line_class("info: started"), "log-line log-info");
    assert_eq!(get_log_line_class("plain"), "log-line");
}

#[test]
fn log_buffer_keeps_the_last_lines() {
    let mut lines: Vec<String> = (0..MAX_LOG_LINES).map(|i| i.to_string()).collect();
    push_log_line(&mut lines, "new".to_string());
    assert_eq!(lines.len(), MAX_LOG_LINES);
    assert_eq!(lines[0], "1");
    assert_eq!(lines[MAX_LOG_LINES - 1], "new");
    let mut short = vec!["a".to_string()];
    push_log_line(&mut short, "b".to_string());
    assert_eq!(short, vec!["a".to_string(), "b".to_string()]);
    let all: Vec<String> = (0..MAX_LOG_LINES + 5).map(|i| i.to_string()).collect();
    let kept = keep_last_lines(all);
    assert_eq!(kept.len(), MAX_LOG_LINES);
    assert_eq!(kept[0], "5");
    assert_eq!(keep_last_lines(vec!["x".to_string()]), vec!["x".to_string()]);
}

#[test]
fn overview_cards() {
    assert_eq!(get_overview_card_count(), 4);
    let targets: Vec<Option<&str>> = (0..5).map(get_overview_card_target).collect();
    assert_eq!(targets, vec![Some("nodes"), Some("pods"), Some("deployments"), Some("services"), None]);
}

fn cond(t: &str, s: &str) -> Condition {
    Condition { type_: t.to_string(), status: s.to_string() }
}

#[test]
fn overview_counts() {
    let nodes = vec![Some(vec![cond("Ready", "True")]), Some(vec![cond("Ready", "False")]), None];
    assert_eq!(count_node_status(&nodes), (1, 2));
    let phases = vec![
        Some("Running".to_string()),
        Some("Pending".to_string()),
        Some("Running".to_string()),
        Some("Failed".to_string()),
        None,
        Some("Succeeded".to_string()),
    ];
    assert_eq!(count_pod_status(&phases), (2, 1, 1));
}

#[test]
fn warning_events_are_the_first_ten() {
    let mut types: Vec<Option<String>> = vec![Some("Normal".to_string()), None];
    for _ in 0..12 {
        types.push(Some("Warning".to_string()));
    }
    let w = warning_event_indices(&types);
    assert_eq!(w, (2..12).collect::<Vec<usize>>());
    assert_eq!(warning_event_indices(&[Some("Normal".to_string())]), Vec::<usize>::new());
    assert_eq!(get_event_age(None, None), "-");
    assert!(get_event_age(None, Some(0)).ends_with('d'));
}

fn job(conds: Option<Vec<Condition>>, active: Option<i32>, succeeded: Option<i32>, failed: Option<i32>) -> JobRun {
    JobRun {
        conditions: conds,
        active,
        succeeded,
        failed,
        completions: Some(2),
        has_status: true,
        start_time: Some(1000),
        completion_time: Some(1000 + 3725),
        created: None,
    }
}

#[test]
fn job_statuses_in_the_drill_down() {
    assert_eq!(get_job_status(&job(Some(vec![cond("Complete", "True")]), Some(1), None, None)), ("Complete", "status-success"));
    assert_eq!(get_job_status(&job(Some(vec![cond("Failed", "True")]), None, None, None)), ("Failed", "status-error"));
    assert_eq!(get_job_status(&job(Some(vec![cond("Complete", "False")]), Some(1), None, None)), ("Running", "status-success"));
    assert_eq!(get_job_status(&job(None, None, Some(1), None)), ("Complete", "status-success"));
    assert_eq!(get_job_status(&job(None, None, Some(1), Some(1))), ("Failed", "status-error"));
    assert_eq!(get_job_status(&job(None, None, None, None)), ("Pending", "status-warning"));
    let mut none = job(None, Some(3), None, None);
    none.has_status = false;
    assert_eq!(get_job_status(&none), ("Pending", "status-warning"));
}

#[test]
fn job_age_in_the_drill_down() {
    let mut j = job(None, None, Some(1), None);
    assert_eq!(get_age(&j), "-");
    j.created = Some(0);
    assert!(get_age(&j).ends_with('d'));
}

#[test]
fn job_columns() {
    let j = job(None, None, Some(1), None);
    assert_eq!(get_completions(&j), "1/2");
    assert_eq!(get_duration(&j), "1h2m");
    assert_eq!(duration_label(42), "42s");
    assert_eq!(duration_label(125), "2m5s");
    assert_eq!(duration_label(-3), "-3s");
    assert_eq!(job_age_label(59), "59s");
    assert_eq!(job_age_label(3600), "1h");
    assert_eq!(job_age_label(2 * 86400), "2d");
    let mut j = job(None, None, None, None);
    j.start_time = None;
    assert_eq!(get_duration(&j), "-");
    j.completions = None;
    assert_eq!(get_completions(&j), "0/1");
}

#[test]
fn container_statuses() {
    let run = Some(Some(ContainerStateInfo { running: true, waiting: None, terminated: None }));
    assert_eq!(get_container_status(&run), ("Running".to_string(), "status-success"));
    let wait = Some(Some(ContainerStateInfo { running: false, waiting: Some(Some("ImagePullBackOff".to_string())), terminated: None }));
    assert_eq!(get_container_status(&wait), ("ImagePullBackOff".to_string(), "status-warning"));
    let wait = Some(Some(ContainerStateInfo { running: false, waiting: Some(None), terminated: None }));
    assert_eq!(get_container_status(&wait), ("Waiting".to_string(), "status-warning"));
    let term = Some(Some(ContainerStateInfo { running: false, waiting: None, terminated: Some(None) }));
    assert_eq!(get_container_status(&term), ("Terminated".to_string(), "status-error"));
    assert_eq!(get_container_status(&None), ("Unknown".to_string(), "status-unknown"));
    assert_eq!(get_container_status(&Some(None)), ("Unknown".to_string(), "status-unknown"));
}

#[test]
fn container_resources() {
    let c = ContainerResources {
        cpu_request: Some("100m".to_string()),
        cpu_limit: None,
        memory_request: None,
        memory_limit: Some("1Gi".to_string()),
    };
    assert_eq!(
        get_resource_info(&c),
        ("100m".to_string(), "-".to_string(), "-".to_string(), "1Gi".to_string())
    );
}

fn command(label: &str) -> Command {
    Command { id: label.to_lowercase(), label: label.to_string(), shortcut: None }
}

#[test]
fn palette_filter_and_selection() {
    let cs = vec![command("View Pods"), command("Cluster Overview"), command("View Services")];
    assert_eq!(filter_commands(&cs, "view"), vec![0, 1, 2]);
    assert_eq!(filter_commands(&cs, "View S"), vec![2]);
    assert_eq!(filter_commands(&cs, "OVER"), vec![1]);
    assert_eq!(filter_commands(&cs, ""), vec![0, 1, 2]);
    assert_eq!(filter_commands(&cs, "zzz"), Vec::<usize>::new());
    assert_eq!(select_next(2, 3), 0);
    assert_eq!(select_next(0, 3), 1);
    assert_eq!(select_prev(0, 3), 2);
    assert_eq!(select_prev(select_next(1, 3), 3), 1);
    assert_eq!(select_next(0, 0), 0);
}

#[test]
fn port_forward_inputs() {
    assert_eq!(port_forward_ports("8080", &vec![80, 443], 1), Ok((8080, 443)));
    assert_eq!(port_forward_ports("8080", &vec![], 0), Ok((8080, 8080)));
    assert_eq!(port_forward_ports("8080", &vec![80], 3), Ok((8080, 8080)));
    assert_eq!(port_forward_ports("+90", &vec![], 0), Ok((90, 90)));
    assert_eq!(port_forward_ports("0", &vec![80], 0), Err("Port must be greater than 0"));
    assert_eq!(port_forward_ports("70000", &vec![80], 0), Err("Invalid port number"));
    assert_eq!(port_forward_ports("http", &vec![80], 0), Err("Invalid port number"));
    assert_eq!(port_forward_ports(" 80", &vec![80], 0), Err("Invalid port number"));
}

use ks_ui::hotkeys::{KeyEvent, KeyName};
use ks_ui::resources::Meta;
use ks_ui::ui::{
    applied_labels, apply_key, connection_dot, container_row, create_key, delete_labels, dialog_key,
    fetched_log_lines, is_escape, log_key, manifest_preview, open_port_dialog, palette_key, port_dialog_key,
    record_key, replace_all, short_image, split_lines, stream_log_line, template_yaml, ApplyKey,
    ApplyManifestState, ContainerStatusRow, CreateKey, CreateState, DialogKey, LogFlags, LogKey, PaletteKey,
    PortFocus, PortKey, RecordKey,
};

fn kev(k: KeyName) -> KeyEvent {
    KeyEvent { key: k, ctrl: false, shift: false, alt: false, meta: false, code_key: None }
}

fn kch(s: &str) -> KeyEvent {
    kev(KeyName::Character(s.to_string()))
}

#[test]
fn text_replacement() {
    assert_eq!(replace_all("a-b-c", "-", "+"), "a+b+c");
    assert_eq!(replace_all("aaaa", "aa", "b"), "bb");
    assert_eq!(replace_all("none", "x", "y"), "none");
    let t = "metadata:\n  namespace: default\nspec:\n  namespace: default\n";
    assert_eq!(
        template_yaml(t, &Some("prod".to_string())),
        "metadata:\n  namespace: prod\nspec:\n  namespace: prod\n"
    );
    assert_eq!(template_yaml(t, &None), t);
}

#[test]
fn create_screen_keys() {
    let s = CreateState::SelectTemplate;
    assert_eq!(create_key(&s, 0, 3, &kev(KeyName::ArrowDown)), (1, true, CreateKey::Nothing));
    assert_eq!(create_key(&s, 2, 3, &kch("j")), (2, true, CreateKey::Nothing));
    assert_eq!(create_key(&s, 0, 3, &kch("k")), (0, true, CreateKey::Nothing));
    assert_eq!(create_key(&s, 2, 3, &kev(KeyName::ArrowUp)), (1, true, CreateKey::Nothing));
    assert_eq!(create_key(&s, 1, 3, &kev(KeyName::Enter)), (1, false, CreateKey::Choose(1)));
    assert_eq!(create_key(&s, 1, 3, &kev(KeyName::Escape)), (1, false, CreateKey::Close));
    let e = CreateState::EditYaml("x".to_string());
    let save = KeyEvent { ctrl: true, ..kch("s") };
    assert_eq!(create_key(&e, 1, 3, &save), (1, false, CreateKey::Apply));
    assert_eq!(create_key(&e, 1, 3, &kch("s")), (1, false, CreateKey::Nothing));
    assert_eq!(create_key(&e, 1, 3, &kev(KeyName::Escape)), (1, false, CreateKey::BackToTemplates));
    let done = CreateState::Success("ok".to_string());
    assert_eq!(create_key(&done, 0, 3, &kev(KeyName::Enter)).2, CreateKey::Close);
    assert_eq!(create_key(&CreateState::Applying, 0, 3, &kev(KeyName::Escape)).2, CreateKey::Nothing);
}

#[test]
fn escape_and_dialogs() {
    assert!(is_escape(&kev(KeyName::Escape)));
    assert!(is_escape(&KeyEvent { ctrl: true, ..kch("[") }));
    assert!(!is_escape(&kch("[")));
    let tab = kev(KeyName::Tab);
    let enter = kev(KeyName::Enter);
    assert_eq!(dialog_key(None, &enter), (None, DialogKey::Nothing));
    let (c, _) = dialog_key(None, &tab);
    assert_eq!(c, Some(false));
    assert_eq!(dialog_key(c, &enter).1, DialogKey::Cancel);
    let (c, _) = dialog_key(c, &kev(KeyName::ArrowRight));
    assert_eq!(c, Some(true));
    assert_eq!(dialog_key(c, &enter).1, DialogKey::Confirm);
    assert_eq!(dialog_key(c, &kev(KeyName::Escape)).1, DialogKey::Cancel);
    assert_eq!(delete_labels(true), ("Force Delete (Kill)", "delete-btn danger"));
    assert_eq!(delete_labels(false), ("Delete", "delete-btn"));
}

#[test]
fn port_dialog() {
    let ports: Vec<u16> = vec![80, 443];
    let d = open_port_dialog(&ports);
    assert_eq!(d.local_text, "80");
    assert_eq!(open_port_dialog(&vec![]).local_text, "8080");
    let (d, _) = port_dialog_key(&d, &ports, &kev(KeyName::ArrowUp));
    assert_eq!(d.focus, PortFocus::PortList);
    let (d, _) = port_dialog_key(&d, &ports, &kev(KeyName::ArrowDown));
    assert_eq!((d.selected, d.local_text.as_str()), (1, "443"));
    let (d, k) = port_dialog_key(&d, &ports, &kev(KeyName::Enter));
    assert_eq!(k, PortKey::Forward(443, 443));
    let (d, _) = port_dialog_key(&d, &ports, &kev(KeyName::ArrowDown));
    assert_eq!(d.focus, PortFocus::LocalPort);
    let (d, _) = port_dialog_key(&d, &ports, &kev(KeyName::Tab));
    assert_eq!(d.focus, PortFocus::PortList);
    let (d, _) = port_dialog_key(&d, &ports, &kev(KeyName::ArrowUp));
    assert_eq!((d.selected, d.local_text.as_str()), (0, "80"));
    let mut bad = d;
    bad.local_text = "0".to_string();
    let (bad, k) = port_dialog_key(&bad, &ports, &kev(KeyName::Enter));
    assert_eq!((bad.error, k), (Some("Port must be greater than 0"), PortKey::Nothing));
    let (_, k) = port_dialog_key(&bad, &ports, &kev(KeyName::Escape));
    assert_eq!(k, PortKey::Cancel);
}

#[test]
fn log_text_and_keys() {
    assert_eq!(split_lines("a\r\nb\n\nc"), vec!["a", "b", "", "c"]);
    assert_eq!(split_lines("a\n"), vec!["a"]);
    assert_eq!(split_lines(""), Vec::<String>::new());
    assert_eq!(split_lines("x\r"), vec!["x\r"]);
    let big: String = (0..10003).map(|i| format!("{}\n", i)).collect();
    let kept = fetched_log_lines(&big);
    assert_eq!(kept.len(), 10000);
    assert_eq!(kept[0], "3");
    let mut lines = vec!["a".to_string()];
    assert!(stream_log_line(&mut lines, "b".to_string(), true));
    assert!(!stream_log_line(&mut lines, "".to_string(), true));
    assert!(!stream_log_line(&mut lines, "c".to_string(), false));
    assert_eq!(lines, vec!["a".to_string(), "b".to_string()]);
    let f = LogFlags { wrap: true, following: true, timestamps: false };
    assert_eq!(log_key(f, &kch("w")), (LogFlags { wrap: false, ..f }, LogKey::Nothing));
    assert_eq!(log_key(f, &kch("f")), (LogFlags { following: false, ..f }, LogKey::Nothing));
    let paused = LogFlags { following: false, ..f };
    assert_eq!(log_key(paused, &kch("f")), (f, LogKey::ScrollToEnd));
    assert_eq!(log_key(f, &kev(KeyName::PageUp)).0.following, false);
    assert_eq!(log_key(f, &kev(KeyName::Escape)).1, LogKey::Back);
    assert_eq!(log_key(f, &KeyEvent { ctrl: true, ..kch("t") }).0, f);
    assert_eq!(connection_dot(Some(true)), ("status-dot connected", "Connected"));
    assert_eq!(connection_dot(None), ("status-dot pending", "Connecting..."));
}

#[test]
fn apply_screen() {
    let p = manifest_preview("/tmp/a.yaml".to_string(), "a: 1\n---\nb: 2".to_string());
    match &p {
        ApplyManifestState::Preview { doc_count, source, .. } => {
            assert_eq!(*doc_count, 2);
            assert_eq!(source, "/tmp/a.yaml");
        }
        _ => panic!("expected a preview"),
    }
    assert_eq!(apply_key(&p, true, &kev(KeyName::Enter)), ApplyKey::Apply);
    assert_eq!(apply_key(&p, false, &kev(KeyName::Enter)), ApplyKey::Nothing);
    assert_eq!(apply_key(&p, false, &kev(KeyName::Escape)), ApplyKey::Close);
    let r = ApplyManifestState::Results { applied: vec![], errors: vec![] };
    assert_eq!(apply_key(&r, true, &kev(KeyName::Enter)), ApplyKey::Close);
    assert_eq!(apply_key(&ApplyManifestState::Applying, true, &kev(KeyName::Enter)), ApplyKey::Nothing);
    let labels = applied_labels(&vec![("Deployment".to_string(), "web".to_string())]);
    assert_eq!(labels, vec!["Deployment/web".to_string()]);
}

#[test]
fn palette_and_recording_keys() {
    let shown = vec![3, 5, 7];
    assert_eq!(palette_key(2, &shown, &kev(KeyName::ArrowDown)), (0, PaletteKey::Nothing));
    assert_eq!(palette_key(0, &shown, &kev(KeyName::ArrowUp)), (2, PaletteKey::Nothing));
    assert_eq!(palette_key(1, &shown, &kev(KeyName::Enter)), (1, PaletteKey::Run(5)));
    assert_eq!(palette_key(4, &shown, &kev(KeyName::Enter)), (4, PaletteKey::Nothing));
    assert_eq!(palette_key(1, &vec![], &kev(KeyName::ArrowDown)), (1, PaletteKey::Nothing));
    assert_eq!(palette_key(1, &shown, &kev(KeyName::Escape)).1, PaletteKey::Close);
    assert!(matches!(record_key(&kev(KeyName::Escape)), RecordKey::Cancel));
    match record_key(&KeyEvent { ctrl: true, ..kch("r") }) {
        RecordKey::Bind(t) => assert_eq!(t, "Ctrl+r"),
        _ => panic!("expected a binding"),
    }
    assert!(matches!(record_key(&kev(KeyName::Shift)), RecordKey::Keep));
}

#[test]
fn container_rows_and_images() {
    let statuses = vec![ContainerStatusRow {
        name: "app".to_string(),
        ready: true,
        restart_count: 2,
        state: Some(ContainerStateInfo { running: true, waiting: None, terminated: None }),
    }];
    assert_eq!(container_row("app", &statuses), ("Running".to_string(), "status-success", true, 2));
    assert_eq!(container_row("sidecar", &statuses), ("Unknown".to_string(), "status-unknown", false, 0));
    assert_eq!(short_image("nginx:1.25"), "nginx:1.25");
    let long = format!("registry.example.com/{}", "x".repeat(40));
    assert_eq!(short_image(&long), format!("...{}", &long[long.len() - 47..]));
    let _ = Meta { name: None, namespace: None, created: None };
}
