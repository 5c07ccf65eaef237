use ks_ui::hotkeys::{KeyEvent, KeyName, ViewState};
use ks_ui::navigation::{
    command_key, key_step, nav_key, route_key, search_rows, show_alias, view_kind, FocusZone, KeyRoute, NavAction,
    NavContext, NavKey, NavState,
};
use ks_ui::resources::ResourceItem;
use ks_ui::ui::ActionType;

fn state(view: &str) -> NavState {
    NavState {
        zone: FocusZone::MainList,
        view: view.to_string(),
        previous_view: "overview".to_string(),
        selected: None,
        sidebar_selected: None,
        sidebar_visible: true,
        child_selected: None,
        keyboard_nav: false,
        command_open: false,
        command_input: String::new(),
    }
}

fn ctx() -> NavContext {
    NavContext {
        screen: ViewState::ResourceList,
        below: None,
        sidebar_items: ["overview", "pods", "deployments", "services", "crd:widgets.example.com"]
            .iter()
            .map(|s| s.to_string())
            .collect(),
        item_count: 3,
        forward_count: 0,
        container_count: None,
        has_selection: true,
        selection_has_namespace: true,
        drilldown_target: false,
        read_only: false,
        desktop: false,
        connected: true,
        chat_available: false,
        modal_open: false,
        search_focused: false,
        namespace_focused: false,
        palette_open: false,
    }
}

fn key(k: KeyName) -> KeyEvent {
    KeyEvent { key: k, ctrl: false, shift: false, alt: false, meta: false, code_key: None }
}

fn ch(s: &str) -> KeyEvent {
    key(KeyName::Character(s.to_string()))
}

fn ctrl(s: &str) -> KeyEvent {
    KeyEvent { ctrl: true, ..ch(s) }
}

#[test]
fn vim_keys_and_ctrl_bracket() {
    assert_eq!(nav_key(&ch("j")), NavKey::Down);
    assert_eq!(nav_key(&ch("k")), NavKey::Up);
    assert_eq!(nav_key(&ctrl("k")), NavKey::Char);
    assert_eq!(nav_key(&ctrl("[")), NavKey::Escape);
    assert_eq!(nav_key(&ch("[")), NavKey::Char);
    assert_eq!(nav_key(&key(KeyName::Tab)), NavKey::Other);
}

#[test]
fn keys_go_to_open_widgets_first() {
    let s = state("pods");
    let mut c = ctx();
    assert_eq!(route_key(NavKey::Down, &s, &c), KeyRoute::Main);
    c.search_focused = true;
    assert_eq!(route_key(NavKey::Escape, &s, &c), KeyRoute::BlurSearch);
    assert_eq!(route_key(NavKey::Char, &s, &c), KeyRoute::Ignore);
    c.modal_open = true;
    assert_eq!(route_key(NavKey::Escape, &s, &c), KeyRoute::Ignore);
    let mut c = ctx();
    c.palette_open = true;
    assert_eq!(route_key(NavKey::Escape, &s, &c), KeyRoute::ClosePalette);
    let mut open = state("pods");
    open.command_open = true;
    assert_eq!(route_key(NavKey::Char, &open, &ctx()), KeyRoute::Command);
}

#[test]
fn overview_cards_and_sidebar() {
    let c = ctx();
    let s = state("overview");
    let (s, _) = key_step(&s, &key(KeyName::ArrowRight), &c);
    assert_eq!(s.selected, Some(1));
    assert!(s.keyboard_nav);
    let (s, _) = key_step(&s, &key(KeyName::ArrowRight), &c);
    let (s, _) = key_step(&s, &key(KeyName::ArrowRight), &c);
    let (s, _) = key_step(&s, &key(KeyName::ArrowRight), &c);
    assert_eq!(s.selected, Some(3));
    let (s, _) = key_step(&s, &key(KeyName::ArrowLeft), &c);
    assert_eq!(s.selected, Some(2));
    let (s, a) = key_step(&s, &key(KeyName::Enter), &c);
    assert_eq!(s.view, "deployments");
    assert_eq!(s.selected, None);
    assert_eq!(a, NavAction::ShowView);
}

#[test]
fn left_from_first_card_enters_the_sidebar() {
    let c = ctx();
    let mut s = state("overview");
    s.selected = Some(0);
    let (s, _) = key_step(&s, &key(KeyName::ArrowLeft), &c);
    assert_eq!(s.zone, FocusZone::Sidebar);
    assert_eq!(s.sidebar_selected, Some(0));
    let (s, _) = key_step(&s, &ch("j"), &c);
    let (s, _) = key_step(&s, &ch("j"), &c);
    assert_eq!(s.sidebar_selected, Some(2));
    let (s, a) = key_step(&s, &key(KeyName::Enter), &c);
    assert_eq!(s.view, "deployments");
    assert_eq!(s.zone, FocusZone::MainList);
    assert_eq!(a, NavAction::ShowViewSelectCrd);
}

#[test]
fn left_from_a_list_selects_its_sidebar_entry() {
    let c = ctx();
    let (s, _) = key_step(&state("services"), &key(KeyName::ArrowLeft), &c);
    assert_eq!(s.zone, FocusZone::Sidebar);
    assert_eq!(s.sidebar_selected, Some(3));
    let (s, _) = key_step(&state("nodes"), &key(KeyName::ArrowLeft), &c);
    assert_eq!(s.sidebar_selected, Some(0));
    let mut hidden = state("services");
    hidden.sidebar_visible = false;
    let (s, _) = key_step(&hidden, &key(KeyName::ArrowLeft), &c);
    assert_eq!(s.zone, FocusZone::MainList);
}

#[test]
fn rows_move_within_the_list() {
    let c = ctx();
    let s = state("pods");
    let (s, a) = key_step(&s, &key(KeyName::ArrowDown), &c);
    assert_eq!((s.selected, a), (Some(0), NavAction::SelectRow(0)));
    let (s, _) = key_step(&s, &ch("j"), &c);
    let (s, _) = key_step(&s, &ch("j"), &c);
    let (s, a) = key_step(&s, &ch("j"), &c);
    assert_eq!((s.selected, a), (Some(2), NavAction::SelectRow(2)));
    let (s, _) = key_step(&s, &ch("k"), &c);
    assert_eq!(s.selected, Some(1));
    let (s, _) = key_step(&s, &key(KeyName::ArrowUp), &c);
    let (s, a) = key_step(&s, &key(KeyName::ArrowUp), &c);
    assert_eq!((s.selected, a), (Some(0), NavAction::SelectRow(0)));
}

#[test]
fn container_and_child_lists() {
    let mut c = ctx();
    c.screen = ViewState::ContainerDrillDown;
    c.container_count = Some(2);
    let mut s = state("pods");
    s.child_selected = Some(0);
    let (s, _) = key_step(&s, &ch("j"), &c);
    let (s, _) = key_step(&s, &ch("j"), &c);
    assert_eq!(s.child_selected, Some(1));
    let (_, a) = key_step(&s, &key(KeyName::Enter), &c);
    assert_eq!(a, NavAction::Logs(Some(1)));
    let (_, a) = key_step(&s, &ch("s"), &c);
    assert_eq!(a, NavAction::Shell(Some(1)));
    c.screen = ViewState::DeploymentPods;
    let (s, _) = key_step(&s, &ch("j"), &c);
    assert_eq!(s.child_selected, Some(2));
    c.drilldown_target = true;
    let (s, a) = key_step(&s, &key(KeyName::Enter), &c);
    assert_eq!(a, NavAction::OpenTarget(ViewState::ContainerDrillDown));
    assert_eq!(s.child_selected, Some(0));
    c.screen = ViewState::CronJobJobs;
    let (_, a) = key_step(&s, &key(KeyName::Enter), &c);
    assert_eq!(a, NavAction::OpenTarget(ViewState::JobPods));
}

#[test]
fn enter_drills_into_the_selected_row() {
    let c = ctx();
    let (s, a) = key_step(&state("deployments"), &key(KeyName::Enter), &c);
    assert_eq!(a, NavAction::DrillDown(ViewState::DeploymentPods));
    assert_eq!(s.child_selected, Some(0));
    let (_, a) = key_step(&state("persistentvolumeclaims"), &key(KeyName::Enter), &c);
    assert_eq!(a, NavAction::DrillDown(ViewState::PvcPods));
    let (_, a) = key_step(&state("configmaps"), &key(KeyName::Enter), &c);
    assert_eq!(a, NavAction::Nothing);
    let mut c = ctx();
    c.selection_has_namespace = false;
    let (_, a) = key_step(&state("pods"), &key(KeyName::Enter), &c);
    assert_eq!(a, NavAction::Nothing);
}

#[test]
fn hotkeys_switch_views_and_escape_goes_back() {
    let c = ctx();
    let (s, a) = key_step(&state("services"), &ch("2"), &c);
    assert_eq!(s.view, "deployments");
    assert_eq!(s.previous_view, "services");
    assert_eq!(a, NavAction::ShowView);
    let (s, a) = key_step(&s, &key(KeyName::Escape), &c);
    assert_eq!(s.view, "services");
    assert_eq!(a, NavAction::ClearSelection);
    let (s, _) = key_step(&state("pods"), &ch("0"), &c);
    assert_eq!(s.view, "overview");
    let mut same = state("pods");
    same.previous_view = "pods".to_string();
    let (s, _) = key_step(&same, &ctrl("["), &c);
    assert_eq!(s.view, "overview");
    let (s, a) = key_step(&state("overview"), &key(KeyName::Escape), &c);
    assert_eq!((s.view.as_str(), a), ("overview", NavAction::Nothing));
}

#[test]
fn escape_pops_a_pushed_screen() {
    let mut c = ctx();
    c.screen = ViewState::LogViewer;
    c.below = Some(ViewState::ResourceList);
    let mut s = state("pods");
    s.child_selected = Some(4);
    let (s, a) = key_step(&s, &key(KeyName::Escape), &c);
    assert_eq!(a, NavAction::PopScreen);
    assert_eq!(s.child_selected, None);
    assert_eq!(s.view, "pods");
}

#[test]
fn actions_on_the_selected_resource() {
    let c = ctx();
    assert_eq!(key_step(&state("pods"), &ch("d"), &c).1, NavAction::Describe);
    assert_eq!(key_step(&state("pods"), &ch("l"), &c).1, NavAction::Logs(None));
    assert_eq!(key_step(&state("pods"), &ch("s"), &c).1, NavAction::Shell(None));
    assert_eq!(key_step(&state("pods"), &ch("f"), &c).1, NavAction::PortForward);
    assert_eq!(key_step(&state("pods"), &ctrl("d"), &c).1, NavAction::Delete { force: false });
    assert_eq!(key_step(&state("deployments"), &ch("+"), &c).1, NavAction::Scale { up: true });
    assert_eq!(key_step(&state("deployments"), &ch("-"), &c).1, NavAction::Scale { up: false });
    assert_eq!(key_step(&state("statefulsets"), &ch("R"), &c).1, NavAction::Confirm(ActionType::Restart));
    assert_eq!(key_step(&state("cronjobs"), &ch("T"), &c).1, NavAction::Confirm(ActionType::Trigger));
    assert_eq!(key_step(&state("pods"), &ch("T"), &c).1, NavAction::Nothing);
    assert_eq!(key_step(&state("pods"), &ctrl("i"), &c).1, NavAction::OpenPalette);
    assert_eq!(key_step(&state("pods"), &ch("x"), &c).1, NavAction::Alias);
    let (s, _) = key_step(&state("pods"), &ctrl("b"), &c);
    assert!(!s.sidebar_visible);
    let (s, a) = key_step(&state("nodes"), &ch("s"), &c);
    assert_eq!((s.view.as_str(), a), ("services", NavAction::ShowView));
}

#[test]
fn read_only_mode_blocks_changes() {
    let mut c = ctx();
    c.read_only = true;
    for k in ["c", "f", "+", "R", "s"] {
        assert_eq!(key_step(&state("pods"), &ch(k), &c).1, NavAction::Nothing, "{}", k);
    }
    assert_eq!(key_step(&state("pods"), &ctrl("d"), &c).1, NavAction::Nothing);
    assert_eq!(key_step(&state("pods"), &ch("d"), &c).1, NavAction::Describe);
}

#[test]
fn port_forward_view() {
    let mut c = ctx();
    c.forward_count = 2;
    let (s, a) = key_step(&state("pods"), &ch("F"), &c);
    assert_eq!((s.view.as_str(), s.selected, a), ("portforwards", Some(0), NavAction::ShowView));
    let (s, _) = key_step(&s, &ch("j"), &c);
    let (s, _) = key_step(&s, &ch("j"), &c);
    assert_eq!(s.selected, Some(1));
    assert_eq!(key_step(&s, &ctrl("d"), &c).1, NavAction::DeleteForward(1));
}

#[test]
fn ctrl_k_force_deletes() {
    let c = ctx();
    let mut s = state("pods");
    s.selected = Some(2);
    let (s2, a) = key_step(&s, &ctrl("k"), &c);
    assert_eq!((s2.selected, a), (Some(2), NavAction::Delete { force: true }));
    let mut ro = ctx();
    ro.read_only = true;
    assert_eq!(key_step(&s, &ctrl("k"), &ro).1, NavAction::Nothing);
    let mut none = ctx();
    none.has_selection = false;
    assert_eq!(key_step(&s, &ctrl("k"), &none).1, NavAction::Nothing);
}

#[test]
fn command_line_editing() {
    let c = ctx();
    let (s, _) = key_step(&state("services"), &ch(":"), &c);
    assert!(s.command_open);
    let (s, _, f) = command_key(&s, &ch("p"), &c, &None);
    assert!(!f);
    let (s, _, _) = command_key(&s, &ch("o"), &c, &None);
    let (s, _, _) = command_key(&s, &ch("x"), &c, &None);
    let (s, _, _) = command_key(&s, &key(KeyName::Backspace), &c, &None);
    let (s, _, _) = command_key(&s, &ch("d"), &c, &None);
    let (s, _, _) = command_key(&s, &ch("s"), &c, &None);
    assert_eq!(s.command_input, "pods");
    let (s, a, f) = command_key(&s, &key(KeyName::Enter), &c, &None);
    assert!(f);
    assert!(!s.command_open);
    assert_eq!(s.view, "pods");
    assert_eq!(s.previous_view, "services");
    assert_eq!(s.sidebar_selected, Some(1));
    assert_eq!(a, NavAction::ShowViewSelectCrd);
}

#[test]
fn command_line_aliases_and_unknown_input() {
    let c = ctx();
    let mut s = state("pods");
    s.command_open = true;
    s.command_input = "wg".to_string();
    let (r, a, _) = command_key(&s, &key(KeyName::Enter), &c, &Some("crd:widgets.example.com".to_string()));
    assert_eq!(r.view, "crd:widgets.example.com");
    assert_eq!(a, NavAction::ShowViewSelectCrd);
    let (r, a, f) = command_key(&s, &key(KeyName::Enter), &c, &None);
    assert_eq!((r.view.as_str(), a, f, r.command_open), ("pods", NavAction::Nothing, true, false));
    let (r, _, _) = command_key(&s, &ch("j"), &c, &None);
    assert_eq!(r.command_input, "wg");
    let (r, _, f) = command_key(&s, &key(KeyName::Escape), &c, &None);
    assert!(f && !r.command_open && r.command_input.is_empty());
}

#[test]
fn alias_targets() {
    let (s, a) = show_alias(&state("pods"), &"crd:widgets.example.com".to_string());
    assert_eq!(s.view, "crd:widgets.example.com");
    assert_eq!(s.previous_view, "pods");
    assert_eq!(a, NavAction::ShowViewSelectCrd);
}

#[test]
fn kinds_of_views() {
    assert_eq!(view_kind("pods", &None), "Pod");
    assert_eq!(view_kind("persistentvolumeclaims", &None), "PersistentVolumeClaim");
    assert_eq!(view_kind("crd:widgets.example.com", &Some("Widget".to_string())), "Widget");
    assert_eq!(view_kind("crd:widgets.example.com", &None), "");
    assert_eq!(view_kind("overview", &Some("Widget".to_string())), "");
}

fn row(name: &str) -> ResourceItem {
    ResourceItem {
        name: name.to_string(),
        namespace: None,
        status: String::new(),
        age: String::new(),
        age_seconds: None,
        ready: None,
        restarts: None,
    }
}

#[test]
fn search_filters_rows_by_name() {
    let rows = vec![row("web-1"), row("API-gateway"), row("web-2")];
    assert_eq!(search_rows(&rows, "WEB"), vec![0, 2]);
    assert_eq!(search_rows(&rows, "api"), vec![1]);
    assert_eq!(search_rows(&rows, ""), vec![0, 1, 2]);
    assert_eq!(search_rows(&rows, "db"), Vec::<usize>::new());
}

use ks_ui::navigation::selection_target;
use ks_ui::resources::Meta;

#[test]
fn drill_down_selection_targets() {
    let entries = vec![
        Meta { name: Some("job-1".to_string()), namespace: Some("ops".to_string()), created: None },
        Meta { name: Some("job-2".to_string()), namespace: None, created: None },
    ];
    assert_eq!(selection_target(&entries, Some(0)), Some(("job-1".to_string(), "ops".to_string())));
    assert_eq!(selection_target(&entries, Some(1)), None);
    assert_eq!(selection_target(&entries, Some(2)), None);
    assert_eq!(selection_target(&entries, None), None);
}
