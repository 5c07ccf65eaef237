//! The dashboard's keyboard navigation: which screen, list row, sidebar
//! entry or card a key press selects, and which action it asks the
//! surrounding application to perform.

use vstd::prelude::*;
use crate::hotkeys::{KeyEvent, KeyName, ViewState};
use crate::text::{chars_of, eq_str, string_of};
use crate::ui::{card_targets, ActionType};

verus! {

// ---------------------------------------------------------------------------
// State, context and actions
// ---------------------------------------------------------------------------

/// The part of the window that has keyboard focus.
#[derive(Clone, Copy, PartialEq, Eq, Structural, Debug)]
pub enum FocusZone {
    Sidebar,
    MainList,
    Other,
}

/// The navigation state the keyboard changes.
pub struct NavState {
    pub zone: FocusZone,
    /// The resource view shown (`overview`, `pods`, `crd:…`, …).
    pub view: String,
    /// The view shown before the last hotkey navigation.
    pub previous_view: String,
    /// The selected row of the list (or overview card).
    pub selected: Option<usize>,
    /// The selected sidebar entry.
    pub sidebar_selected: Option<usize>,
    pub sidebar_visible: bool,
    /// The selected entry of a drill-down list (containers, pods, jobs).
    pub child_selected: Option<usize>,
    /// Navigation by keyboard is active (the focus rings are shown).
    pub keyboard_nav: bool,
    /// The `:` command line is open, and what has been typed into it.
    pub command_open: bool,
    pub command_input: String,
}

/// What a key press reads of the rest of the application.
pub struct NavContext {
    /// The screen on top of the navigation stack.
    pub screen: ViewState,
    /// The screen below it, if the stack can be popped.
    pub below: Option<ViewState>,
    /// The sidebar's views, custom resource views included.
    pub sidebar_items: Vec<String>,
    /// Rows of the current list after the search filter.
    pub item_count: usize,
    /// Active port forwards.
    pub forward_count: usize,
    /// Containers of the drilled-down pod, where the pod and its spec are
    /// found.
    pub container_count: Option<usize>,
    /// A resource row is selected, and it has a namespace.
    pub has_selection: bool,
    pub selection_has_namespace: bool,
    /// An entry of the drill-down list is selected.
    pub drilldown_target: bool,
    pub read_only: bool,
    /// The desktop build, which can open files.
    pub desktop: bool,
    /// A cluster is connected.
    pub connected: bool,
    /// The assistant is enabled and signed in.
    pub chat_available: bool,
    /// A dialog (delete, port forward, confirmation, help) is open.
    pub modal_open: bool,
    pub search_focused: bool,
    pub namespace_focused: bool,
    pub palette_open: bool,
}

/// What the application does after a key press, besides taking the new
/// navigation state.
#[derive(Clone, Copy, PartialEq, Eq, Structural, Debug)]
pub enum NavAction {
    Nothing,
    /// Show the view now in the state: reset the navigation stack to the
    /// resource list and clear the selected resource.
    ShowView,
    /// The same, and select the custom resource definition the view names
    /// (none for other views).
    ShowViewSelectCrd,
    /// Select the row at this index of the current list.
    SelectRow(usize),
    /// Clear the selected resource.
    ClearSelection,
    /// Pop the navigation stack and give the window the focus back.
    PopScreen,
    /// Push this screen for the selected resource.
    DrillDown(ViewState),
    /// Push this screen for the selected drill-down entry, and clear it.
    OpenTarget(ViewState),
    /// Show the logs of the selected resource, or of this container.
    Logs(Option<usize>),
    /// Open a shell in the selected pod, or in this container.
    Shell(Option<usize>),
    Describe,
    Create,
    Delete { force: bool },
    /// Delete the port forward at this index.
    DeleteForward(usize),
    OpenPalette,
    OpenFile,
    FocusSearch,
    FocusNamespace,
    Help,
    ToggleChat,
    PortForward,
    Scale { up: bool },
    Confirm(ActionType),
    /// Give the window the keyboard focus back.
    Refocus,
    /// A plain character with no built-in meaning: look it up among the
    /// plugin's aliases.
    Alias,
}

/// The navigation state as plain values.
pub struct NavModel {
    pub zone: FocusZone,
    pub view: Seq<char>,
    pub previous_view: Seq<char>,
    pub selected: Option<usize>,
    pub sidebar_selected: Option<usize>,
    pub sidebar_visible: bool,
    pub child_selected: Option<usize>,
    pub keyboard_nav: bool,
    pub command_open: bool,
    pub command_input: Seq<char>,
}

impl NavState {
    pub open spec fn model(&self) -> NavModel {
        NavModel {
            zone: self.zone,
            view: self.view@,
            previous_view: self.previous_view@,
            selected: self.selected,
            sidebar_selected: self.sidebar_selected,
            sidebar_visible: self.sidebar_visible,
            child_selected: self.child_selected,
            keyboard_nav: self.keyboard_nav,
            command_open: self.command_open,
            command_input: self.command_input@,
        }
    }
}

/// The sidebar entries as texts.
pub open spec fn items_view(v: Seq<String>) -> Seq<Seq<char>> {
    Seq::new(v.len(), |i: int| v[i]@)
}

// ---------------------------------------------------------------------------
// Keys
// ---------------------------------------------------------------------------

/// A key as the navigation reads it.
#[derive(Clone, Copy, PartialEq, Eq, Structural, Debug)]
pub enum NavKey {
    Left,
    Right,
    Up,
    Down,
    Enter,
    Escape,
    Backspace,
    /// A character key; its text is the event's.
    Char,
    Other,
}

/// The key an event stands for: `j` and `k` move down and up as the arrows
/// do (`Ctrl+K` stays a character key: it is the force delete shown in the
/// hotkey bar), and `Ctrl+[` is Escape.
pub open spec fn effective_key(e: KeyEvent) -> NavKey {
    match e.key {
        KeyName::Character(c) => if c@ == "j"@ {
            NavKey::Down
        } else if c@ == "k"@ && !e.ctrl {
            NavKey::Up
        } else if c@ == "["@ && e.ctrl {
            NavKey::Escape
        } else {
            NavKey::Char
        },
        KeyName::ArrowLeft => NavKey::Left,
        KeyName::ArrowRight => NavKey::Right,
        KeyName::ArrowUp => NavKey::Up,
        KeyName::ArrowDown => NavKey::Down,
        KeyName::Enter => NavKey::Enter,
        KeyName::Escape => NavKey::Escape,
        KeyName::Backspace => NavKey::Backspace,
        _ => NavKey::Other,
    }
}

/// The text of a character key (empty for other keys).
pub open spec fn key_text(e: KeyEvent) -> Seq<char> {
    match e.key {
        KeyName::Character(c) => c@,
        _ => Seq::empty(),
    }
}

/// The key an event stands for.
pub fn nav_key(e: &KeyEvent) -> (r: NavKey)
    ensures
        r == effective_key(*e),
{
    match &e.key {
        KeyName::Character(c) => {
            let cs = chars_of(c.as_str());
            if eq_str(cs.as_slice(), "j") {
                NavKey::Down
            } else if eq_str(cs.as_slice(), "k") && !e.ctrl {
                NavKey::Up
            } else if eq_str(cs.as_slice(), "[") && e.ctrl {
                NavKey::Escape
            } else {
                NavKey::Char
            }
        },
        KeyName::ArrowLeft => NavKey::Left,
        KeyName::ArrowRight => NavKey::Right,
        KeyName::ArrowUp => NavKey::Up,
        KeyName::ArrowDown => NavKey::Down,
        KeyName::Enter => NavKey::Enter,
        KeyName::Escape => NavKey::Escape,
        KeyName::Backspace => NavKey::Backspace,
        _ => NavKey::Other,
    }
}

/// Where a key press goes before the navigation sees it.
#[derive(Clone, Copy, PartialEq, Eq, Structural, Debug)]
pub enum KeyRoute {
    /// Dropped: a dialog is open, or the search field or another open
    /// widget keeps the key.
    Ignore,
    /// Escape leaves the search field.
    BlurSearch,
    /// Escape leaves the namespace selector (the window takes the focus).
    BlurNamespace,
    /// Escape closes the command palette.
    ClosePalette,
    /// The `:` command line takes the key.
    Command,
    /// The plugin's hotkeys, then the navigation, take the key.
    Main,
}

/// The route of a key press, given what is open and focused.
pub open spec fn route_spec(k: NavKey, command_open: bool, c: NavContext) -> KeyRoute {
    if c.modal_open {
        KeyRoute::Ignore
    } else if c.search_focused {
        if k == NavKey::Escape { KeyRoute::BlurSearch } else { KeyRoute::Ignore }
    } else if c.namespace_focused {
        if k == NavKey::Escape { KeyRoute::BlurNamespace } else { KeyRoute::Ignore }
    } else if c.palette_open {
        if k == NavKey::Escape { KeyRoute::ClosePalette } else { KeyRoute::Ignore }
    } else if command_open {
        KeyRoute::Command
    } else {
        KeyRoute::Main
    }
}

/// Routes a key press.
pub fn route_key(k: NavKey, s: &NavState, c: &NavContext) -> (r: KeyRoute)
    ensures
        r == route_spec(k, s.command_open, *c),
{
    if c.modal_open {
        KeyRoute::Ignore
    } else if c.search_focused {
        if k == NavKey::Escape { KeyRoute::BlurSearch } else { KeyRoute::Ignore }
    } else if c.namespace_focused {
        if k == NavKey::Escape { KeyRoute::BlurNamespace } else { KeyRoute::Ignore }
    } else if c.palette_open {
        if k == NavKey::Escape { KeyRoute::ClosePalette } else { KeyRoute::Ignore }
    } else if s.command_open {
        KeyRoute::Command
    } else {
        KeyRoute::Main
    }
}

// ---------------------------------------------------------------------------
// Arrow keys
// ---------------------------------------------------------------------------

/// The first position of `v` among the entries.
pub open spec fn position_of(items: Seq<Seq<char>>, v: Seq<char>) -> Option<int>
    decreases items.len(),
{
    if items.len() == 0 {
        None
    } else if items[0] == v {
        Some(0)
    } else {
        match position_of(items.drop_first(), v) {
            Some(i) => Some(i + 1),
            None => None,
        }
    }
}

/// The screens that list the pods, jobs or endpoints of a resource.
pub open spec fn is_child_list(s: ViewState) -> bool {
    match s {
        ViewState::DeploymentPods | ViewState::StatefulSetPods | ViewState::DaemonSetPods | ViewState::JobPods
        | ViewState::CronJobJobs | ViewState::ServiceEndpoints | ViewState::PvcPods => true,
        _ => false,
    }
}

/// The next index down a list of `n` entries: the first without one, else
/// one further, at most the last.
pub open spec fn down_index(cur: Option<usize>, n: int) -> usize {
    match cur {
        None => 0,
        Some(c) => if c + 1 < n - 1 { (c + 1) as usize } else { (n - 1) as usize },
    }
}

/// The next index up: one less, at least the first.
pub open spec fn up_index(cur: Option<usize>) -> usize {
    match cur {
        None => 0,
        Some(c) => if c > 0 { (c - 1) as usize } else { 0 },
    }
}

/// Left: on the overview, the previous card or, from the first, the
/// sidebar; elsewhere from the list to the sidebar, selecting the current
/// view's entry if none is selected.
pub open spec fn left_spec(m: NavModel, c: NavContext) -> NavModel {
    let m = NavModel { keyboard_nav: true, ..m };
    if m.zone == FocusZone::MainList {
        if m.view == "overview"@ {
            match m.selected {
                Some(i) if i > 0 => NavModel { selected: Some((i - 1) as usize), ..m },
                _ => if m.sidebar_visible {
                    NavModel {
                        zone: FocusZone::Sidebar,
                        selected: None,
                        sidebar_selected: if m.sidebar_selected is None { Some(0usize) } else { m.sidebar_selected },
                        ..m
                    }
                } else {
                    m
                },
            }
        } else if m.sidebar_visible {
            NavModel {
                zone: FocusZone::Sidebar,
                sidebar_selected: if m.sidebar_selected is None {
                    match position_of(items_view(c.sidebar_items@), m.view) {
                        Some(i) => Some(i as usize),
                        None => Some(0usize),
                    }
                } else {
                    m.sidebar_selected
                },
                ..m
            }
        } else {
            m
        }
    } else {
        m
    }
}

/// Right: from the sidebar into the list (the first card on the overview),
/// or to the next overview card.
pub open spec fn right_spec(m: NavModel) -> NavModel {
    let m = NavModel { keyboard_nav: true, ..m };
    if m.zone == FocusZone::Sidebar {
        NavModel {
            zone: FocusZone::MainList,
            selected: if m.view == "overview"@ { Some(0usize) } else { m.selected },
            ..m
        }
    } else if m.zone == FocusZone::MainList && m.view == "overview"@ {
        let cur: int = match m.selected {
            Some(i) => i as int,
            None => 0,
        };
        if cur < card_targets().len() - 1 { NavModel { selected: Some((cur + 1) as usize), ..m } } else { m }
    } else {
        m
    }
}

/// Down: the next sidebar entry, drill-down entry, port forward or row.
pub open spec fn down_spec(m: NavModel, c: NavContext) -> (NavModel, NavAction) {
    let m = NavModel { keyboard_nav: true, ..m };
    match m.zone {
        FocusZone::Sidebar => if c.sidebar_items@.len() > 0 {
            (NavModel { sidebar_selected: Some(down_index(m.sidebar_selected, c.sidebar_items@.len() as int)), ..m }, NavAction::Nothing)
        } else {
            (m, NavAction::Nothing)
        },
        FocusZone::MainList => if c.screen == ViewState::ContainerDrillDown {
            match c.container_count {
                Some(n) if n > 0 => (NavModel { child_selected: Some(down_index(m.child_selected, n as int)), ..m }, NavAction::Nothing),
                _ => (m, NavAction::Nothing),
            }
        } else if is_child_list(c.screen) {
            (NavModel {
                child_selected: Some(match m.child_selected {
                    None => 0usize,
                    Some(i) => (i + 1) as usize,
                }),
                ..m
            }, NavAction::Nothing)
        } else if m.view == "overview"@ {
            (m, NavAction::Nothing)
        } else if m.view == "portforwards"@ {
            if c.forward_count > 0 {
                (NavModel { selected: Some(down_index(m.selected, c.forward_count as int)), ..m }, NavAction::Nothing)
            } else {
                (m, NavAction::Nothing)
            }
        } else if c.item_count > 0 {
            let n = down_index(m.selected, c.item_count as int);
            (NavModel { selected: Some(n), ..m }, NavAction::SelectRow(n))
        } else {
            (m, NavAction::Nothing)
        },
        FocusZone::Other => (m, NavAction::Nothing),
    }
}

/// Up: the previous sidebar entry, drill-down entry, port forward or row.
pub open spec fn up_spec(m: NavModel, c: NavContext) -> (NavModel, NavAction) {
    let m = NavModel { keyboard_nav: true, ..m };
    match m.zone {
        FocusZone::Sidebar => if c.sidebar_items@.len() > 0 {
            (NavModel { sidebar_selected: Some(up_index(m.sidebar_selected)), ..m }, NavAction::Nothing)
        } else {
            (m, NavAction::Nothing)
        },
        FocusZone::MainList => if c.screen == ViewState::ContainerDrillDown {
            if c.container_count is Some {
                (NavModel { child_selected: Some(up_index(m.child_selected)), ..m }, NavAction::Nothing)
            } else {
                (m, NavAction::Nothing)
            }
        } else if is_child_list(c.screen) {
            (NavModel { child_selected: Some(up_index(m.child_selected)), ..m }, NavAction::Nothing)
        } else if m.view == "overview"@ {
            (m, NavAction::Nothing)
        } else if m.view == "portforwards"@ {
            if c.forward_count > 0 {
                (NavModel { selected: Some(up_index(m.selected)), ..m }, NavAction::Nothing)
            } else {
                (m, NavAction::Nothing)
            }
        } else if c.item_count > 0 {
            let n = up_index(m.selected);
            (NavModel { selected: Some(n), ..m }, NavAction::SelectRow(n))
        } else {
            (m, NavAction::Nothing)
        },
        FocusZone::Other => (m, NavAction::Nothing),
    }
}

/// Whether the text equals a literal.
fn is_text(s: &String, lit: &str) -> (r: bool)
    ensures
        r == (s@ == lit@),
{
    eq_str(chars_of(s.as_str()).as_slice(), lit)
}

/// A copy of a string.
fn copy_text(s: &String) -> (r: String)
    ensures
        r@ == s@,
{
    string_of(chars_of(s.as_str()).as_slice())
}

fn copy_state(s: &NavState) -> (r: NavState)
    ensures
        r.model() == s.model(),
{
    NavState {
        zone: s.zone,
        view: copy_text(&s.view),
        previous_view: copy_text(&s.previous_view),
        selected: s.selected,
        sidebar_selected: s.sidebar_selected,
        sidebar_visible: s.sidebar_visible,
        child_selected: s.child_selected,
        keyboard_nav: s.keyboard_nav,
        command_open: s.command_open,
        command_input: copy_text(&s.command_input),
    }
}

/// The first position of `v` among the entries.
pub fn position_in(items: &Vec<String>, v: &String) -> (r: Option<usize>)
    ensures
        match r {
            Some(i) => position_of(items_view(items@), v@) == Some(i as int),
            None => position_of(items_view(items@), v@) is None,
        },
{
    let ghost all = items_view(items@);
    let mut i: usize = 0;
    assert(all.skip(0) =~= all);
    while i < items.len()
        invariant
            i <= items@.len(),
            all == items_view(items@),
            position_of(all, v@) == match position_of(all.skip(i as int), v@) {
                Some(j) => Some(j + i),
                None => None::<int>,
            },
        decreases items@.len() - i,
    {
        assert(all.skip(i as int).drop_first() =~= all.skip(i + 1));
        assert(all.skip(i as int)[0] == items@[i as int]@);
        if chars_eq_string(&items[i], v) {
            return Some(i);
        }
        i += 1;
    }
    assert(all.skip(i as int) =~= Seq::<Seq<char>>::empty());
    None
}

fn chars_eq_string(a: &String, b: &String) -> (r: bool)
    ensures
        r == (a@ == b@),
{
    crate::text::chars_eq(chars_of(a.as_str()).as_slice(), chars_of(b.as_str()).as_slice())
}

fn down_exec(cur: Option<usize>, n: usize) -> (r: usize)
    requires
        n > 0,
    ensures
        r == down_index(cur, n as int),
{
    match cur {
        None => 0,
        Some(c) => if c < n - 1 && c + 1 < n - 1 { c + 1 } else { n - 1 },
    }
}

fn up_exec(cur: Option<usize>) -> (r: usize)
    ensures
        r == up_index(cur),
{
    match cur {
        None => 0,
        Some(c) => if c > 0 { c - 1 } else { 0 },
    }
}

/// Left arrow.
pub fn key_left(s: &NavState, c: &NavContext) -> (r: NavState)
    ensures
        r.model() == left_spec(s.model(), *c),
{
    let mut m = copy_state(s);
    m.keyboard_nav = true;
    if m.zone == FocusZone::MainList {
        if is_text(&m.view, "overview") {
            match m.selected {
                Some(i) if i > 0 => {
                    m.selected = Some(i - 1);
                },
                _ => {
                    if m.sidebar_visible {
                        m.zone = FocusZone::Sidebar;
                        m.selected = None;
                        if m.sidebar_selected.is_none() {
                            m.sidebar_selected = Some(0);
                        }
                    }
                },
            }
        } else if m.sidebar_visible {
            m.zone = FocusZone::Sidebar;
            if m.sidebar_selected.is_none() {
                m.sidebar_selected = match position_in(&c.sidebar_items, &m.view) {
                    Some(i) => Some(i),
                    None => Some(0),
                };
            }
        }
    }
    m
}

/// Right arrow.
pub fn key_right(s: &NavState) -> (r: NavState)
    ensures
        r.model() == right_spec(s.model()),
{
    let mut m = copy_state(s);
    m.keyboard_nav = true;
    let overview = is_text(&m.view, "overview");
    if m.zone == FocusZone::Sidebar {
        m.zone = FocusZone::MainList;
        if overview {
            m.selected = Some(0);
        }
    } else if m.zone == FocusZone::MainList && overview {
        let count = crate::ui::get_overview_card_count();
        let cur: usize = match m.selected {
            Some(i) => i,
            None => 0,
        };
        if cur < count - 1 {
            m.selected = Some(cur + 1);
        }
    }
    m
}

/// Down arrow (or `j`). A drill-down index is incremented without
/// bound, so it must not already be the largest `usize`.
pub fn key_down(s: &NavState, c: &NavContext) -> (r: (NavState, NavAction))
    requires
        s.child_selected != Some(usize::MAX),
    ensures
        r.0.model() == down_spec(s.model(), *c).0,
        r.1 == down_spec(s.model(), *c).1,
{
    let mut m = copy_state(s);
    m.keyboard_nav = true;
    match m.zone {
        FocusZone::Sidebar => {
            if c.sidebar_items.len() > 0 {
                m.sidebar_selected = Some(down_exec(m.sidebar_selected, c.sidebar_items.len()));
            }
            (m, NavAction::Nothing)
        },
        FocusZone::MainList => {
            if c.screen == ViewState::ContainerDrillDown {
                match c.container_count {
                    Some(n) if n > 0 => {
                        m.child_selected = Some(down_exec(m.child_selected, n));
                    },
                    _ => {},
                }
                (m, NavAction::Nothing)
            } else if child_list(c.screen) {
                m.child_selected = Some(match m.child_selected {
                    None => 0,
                    Some(i) => i + 1,
                });
                (m, NavAction::Nothing)
            } else if is_text(&m.view, "overview") {
                (m, NavAction::Nothing)
            } else if is_text(&m.view, "portforwards") {
                if c.forward_count > 0 {
                    m.selected = Some(down_exec(m.selected, c.forward_count));
                }
                (m, NavAction::Nothing)
            } else if c.item_count > 0 {
                let n = down_exec(m.selected, c.item_count);
                m.selected = Some(n);
                (m, NavAction::SelectRow(n))
            } else {
                (m, NavAction::Nothing)
            }
        },
        FocusZone::Other => (m, NavAction::Nothing),
    }
}

fn child_list(s: ViewState) -> (r: bool)
    ensures
        r == is_child_list(s),
{
    match s {
        ViewState::DeploymentPods | ViewState::StatefulSetPods | ViewState::DaemonSetPods | ViewState::JobPods
        | ViewState::CronJobJobs | ViewState::ServiceEndpoints | ViewState::PvcPods => true,
        _ => false,
    }
}

/// Up arrow (or `k`).
pub fn key_up(s: &NavState, c: &NavContext) -> (r: (NavState, NavAction))
    ensures
        r.0.model() == up_spec(s.model(), *c).0,
        r.1 == up_spec(s.model(), *c).1,
{
    let mut m = copy_state(s);
    m.keyboard_nav = true;
    match m.zone {
        FocusZone::Sidebar => {
            if c.sidebar_items.len() > 0 {
                m.sidebar_selected = Some(up_exec(m.sidebar_selected));
            }
            (m, NavAction::Nothing)
        },
        FocusZone::MainList => {
            if c.screen == ViewState::ContainerDrillDown {
                if c.container_count.is_some() {
                    m.child_selected = Some(up_exec(m.child_selected));
                }
                (m, NavAction::Nothing)
            } else if child_list(c.screen) {
                m.child_selected = Some(up_exec(m.child_selected));
                (m, NavAction::Nothing)
            } else if is_text(&m.view, "overview") {
                (m, NavAction::Nothing)
            } else if is_text(&m.view, "portforwards") {
                if c.forward_count > 0 {
                    m.selected = Some(up_exec(m.selected));
                }
                (m, NavAction::Nothing)
            } else if c.item_count > 0 {
                let n = up_exec(m.selected);
                m.selected = Some(n);
                (m, NavAction::SelectRow(n))
            } else {
                (m, NavAction::Nothing)
            }
        },
        FocusZone::Other => (m, NavAction::Nothing),
    }
}

// ---------------------------------------------------------------------------
// Enter and Escape
// ---------------------------------------------------------------------------

/// The drill-down screen that Enter opens for a row of a view.
pub open spec fn drill_screen(view: Seq<char>) -> Option<ViewState> {
    if view == "pods"@ {
        Some(ViewState::ContainerDrillDown)
    } else if view == "deployments"@ {
        Some(ViewState::DeploymentPods)
    } else if view == "statefulsets"@ {
        Some(ViewState::StatefulSetPods)
    } else if view == "daemonsets"@ {
        Some(ViewState::DaemonSetPods)
    } else if view == "jobs"@ {
        Some(ViewState::JobPods)
    } else if view == "cronjobs"@ {
        Some(ViewState::CronJobJobs)
    } else if view == "services"@ {
        Some(ViewState::ServiceEndpoints)
    } else if view == "persistentvolumeclaims"@ {
        Some(ViewState::PvcPods)
    } else {
        None
    }
}

fn drill_screen_exec(view: &String) -> (r: Option<ViewState>)
    ensures
        r == drill_screen(view@),
{
    if is_text(view, "pods") {
        Some(ViewState::ContainerDrillDown)
    } else if is_text(view, "deployments") {
        Some(ViewState::DeploymentPods)
    } else if is_text(view, "statefulsets") {
        Some(ViewState::StatefulSetPods)
    } else if is_text(view, "daemonsets") {
        Some(ViewState::DaemonSetPods)
    } else if is_text(view, "jobs") {
        Some(ViewState::JobPods)
    } else if is_text(view, "cronjobs") {
        Some(ViewState::CronJobJobs)
    } else if is_text(view, "services") {
        Some(ViewState::ServiceEndpoints)
    } else if is_text(view, "persistentvolumeclaims") {
        Some(ViewState::PvcPods)
    } else {
        None
    }
}

/// The selected container, where one is selected within the pod's.
pub open spec fn chosen_container(m: NavModel, c: NavContext) -> Option<usize> {
    match (m.child_selected, c.container_count) {
        (Some(i), Some(n)) if i < n => Some(i),
        _ => None,
    }
}

fn chosen_container_exec(s: &NavState, c: &NavContext) -> (r: Option<usize>)
    ensures
        r == chosen_container(s.model(), *c),
{
    match (s.child_selected, c.container_count) {
        (Some(i), Some(n)) if i < n => Some(i),
        _ => None,
    }
}

/// Enter: opens the selected overview card or sidebar view; on a list,
/// drills down into the selected row or entry; in a pod, shows the
/// selected container's logs.
pub open spec fn enter_spec(m: NavModel, c: NavContext) -> (NavModel, NavAction) {
    if m.view == "overview"@ && m.zone == FocusZone::MainList {
        match m.selected {
            Some(i) if i < card_targets().len() => (NavModel { view: card_targets()[i as int], selected: None, ..m }, NavAction::ShowView),
            _ => (m, NavAction::Nothing),
        }
    } else if m.zone == FocusZone::Sidebar {
        match m.sidebar_selected {
            Some(i) if i < c.sidebar_items@.len() => (
                NavModel { view: c.sidebar_items@[i as int]@, selected: None, zone: FocusZone::MainList, ..m },
                NavAction::ShowViewSelectCrd,
            ),
            _ => (m, NavAction::Nothing),
        }
    } else {
        match c.screen {
            ViewState::ContainerDrillDown => match chosen_container(m, c) {
                Some(i) => (m, NavAction::Logs(Some(i))),
                None => (m, NavAction::Nothing),
            },
            ViewState::ResourceList => match drill_screen(m.view) {
                Some(sc) if c.has_selection && c.selection_has_namespace => (NavModel { child_selected: Some(0usize), ..m }, NavAction::DrillDown(sc)),
                _ => (m, NavAction::Nothing),
            },
            ViewState::CronJobJobs => if c.drilldown_target {
                (NavModel { child_selected: Some(0usize), ..m }, NavAction::OpenTarget(ViewState::JobPods))
            } else {
                (m, NavAction::Nothing)
            },
            ViewState::DeploymentPods | ViewState::StatefulSetPods | ViewState::DaemonSetPods | ViewState::JobPods
            | ViewState::ServiceEndpoints | ViewState::PvcPods => if c.drilldown_target {
                (NavModel { child_selected: Some(0usize), ..m }, NavAction::OpenTarget(ViewState::ContainerDrillDown))
            } else {
                (m, NavAction::Nothing)
            },
            _ => (m, NavAction::Nothing),
        }
    }
}

/// Enter.
pub fn key_enter(s: &NavState, c: &NavContext) -> (r: (NavState, NavAction))
    ensures
        r.0.model() == enter_spec(s.model(), *c).0,
        r.1 == enter_spec(s.model(), *c).1,
{
    let mut m = copy_state(s);
    if is_text(&m.view, "overview") && m.zone == FocusZone::MainList {
        match m.selected {
            Some(i) => match crate::ui::get_overview_card_target(i) {
                Some(t) => {
                    m.view = String::from_str(t);
                    m.selected = None;
                    (m, NavAction::ShowView)
                },
                None => (m, NavAction::Nothing),
            },
            None => (m, NavAction::Nothing),
        }
    } else if m.zone == FocusZone::Sidebar {
        match m.sidebar_selected {
            Some(i) if i < c.sidebar_items.len() => {
                m.view = copy_text(&c.sidebar_items[i]);
                m.selected = None;
                m.zone = FocusZone::MainList;
                (m, NavAction::ShowViewSelectCrd)
            },
            _ => (m, NavAction::Nothing),
        }
    } else {
        match c.screen {
            ViewState::ContainerDrillDown => match chosen_container_exec(&m, c) {
                Some(i) => (m, NavAction::Logs(Some(i))),
                None => (m, NavAction::Nothing),
            },
            ViewState::ResourceList => match drill_screen_exec(&m.view) {
                Some(sc) if c.has_selection && c.selection_has_namespace => {
                    m.child_selected = Some(0);
                    (m, NavAction::DrillDown(sc))
                },
                _ => (m, NavAction::Nothing),
            },
            ViewState::CronJobJobs => if c.drilldown_target {
                m.child_selected = Some(0);
                (m, NavAction::OpenTarget(ViewState::JobPods))
            } else {
                (m, NavAction::Nothing)
            },
            ViewState::DeploymentPods | ViewState::StatefulSetPods | ViewState::DaemonSetPods | ViewState::JobPods
            | ViewState::ServiceEndpoints | ViewState::PvcPods => if c.drilldown_target {
                m.child_selected = Some(0);
                (m, NavAction::OpenTarget(ViewState::ContainerDrillDown))
            } else {
                (m, NavAction::Nothing)
            },
            _ => (m, NavAction::Nothing),
        }
    }
}

/// Escape: leaves the screen on top of the stack; on the resource list,
/// goes back to the previous view (the overview where there is none).
pub open spec fn escape_spec(m: NavModel, c: NavContext) -> (NavModel, NavAction) {
    match c.below {
        Some(b) => (if b == ViewState::ResourceList { NavModel { child_selected: None, ..m } } else { m }, NavAction::PopScreen),
        None => if m.view != "overview"@ {
            (
                NavModel {
                    view: if m.previous_view.len() == 0 || m.previous_view == m.view { "overview"@ } else { m.previous_view },
                    selected: None,
                    ..m
                },
                NavAction::ClearSelection,
            )
        } else {
            (m, NavAction::Nothing)
        },
    }
}

/// Escape.
pub fn key_escape(s: &NavState, c: &NavContext) -> (r: (NavState, NavAction))
    ensures
        r.0.model() == escape_spec(s.model(), *c).0,
        r.1 == escape_spec(s.model(), *c).1,
{
    let mut m = copy_state(s);
    match c.below {
        Some(b) => {
            if b == ViewState::ResourceList {
                m.child_selected = None;
            }
            (m, NavAction::PopScreen)
        },
        None => {
            if !is_text(&m.view, "overview") {
                let back = m.previous_view.as_str().is_empty() || chars_eq_string(&m.previous_view, &m.view);
                m.view = if back { String::from_str("overview") } else { copy_text(&m.previous_view) };
                m.selected = None;
                (m, NavAction::ClearSelection)
            } else {
                (m, NavAction::Nothing)
            }
        },
    }
}

// ---------------------------------------------------------------------------
// Character hotkeys
// ---------------------------------------------------------------------------

/// Shows a view, remembering the one left.
pub open spec fn goto_spec(m: NavModel, view: Seq<char>) -> (NavModel, NavAction) {
    (NavModel { previous_view: m.view, view: view, selected: None, ..m }, NavAction::ShowView)
}

/// A plain character (no `Ctrl`, no `Meta`).
pub open spec fn plain_char_spec(m: NavModel, t: Seq<char>, c: NavContext) -> (NavModel, NavAction) {
    let pod_row = m.view == "pods"@ && c.has_selection && c.selection_has_namespace;
    if t == "o"@ || t == "0"@ {
        (NavModel { view: "overview"@, selected: None, ..m }, NavAction::ShowView)
    } else if t == "1"@ || t == "p"@ {
        goto_spec(m, "pods"@)
    } else if t == "2"@ {
        goto_spec(m, "deployments"@)
    } else if t == "3"@ {
        goto_spec(m, "services"@)
    } else if t == "N"@ {
        goto_spec(m, "nodes"@)
    } else if t == "v"@ {
        goto_spec(m, "events"@)
    } else if t == "d"@ {
        (m, if c.has_selection { NavAction::Describe } else { NavAction::Nothing })
    } else if t == "c"@ {
        (m, if c.read_only { NavAction::Nothing } else { NavAction::Create })
    } else if t == "l"@ {
        if c.screen == ViewState::ContainerDrillDown {
            (m, match chosen_container(m, c) {
                Some(i) => NavAction::Logs(Some(i)),
                None => NavAction::Nothing,
            })
        } else {
            (m, if pod_row { NavAction::Logs(None) } else { NavAction::Nothing })
        }
    } else if t == "s"@ {
        if c.screen == ViewState::ContainerDrillDown {
            (m, if c.read_only {
                NavAction::Nothing
            } else {
                match chosen_container(m, c) {
                    Some(i) => NavAction::Shell(Some(i)),
                    None => NavAction::Nothing,
                }
            })
        } else if m.view == "pods"@ {
            (m, if !c.read_only && pod_row { NavAction::Shell(None) } else { NavAction::Nothing })
        } else {
            (NavModel { view: "services"@, selected: None, ..m }, NavAction::ShowView)
        }
    } else if t == "f"@ {
        (m, if !c.read_only && pod_row { NavAction::PortForward } else { NavAction::Nothing })
    } else if t == "/"@ {
        (m, NavAction::FocusSearch)
    } else if t == ":"@ {
        (NavModel { command_open: true, command_input: Seq::empty(), ..m }, NavAction::Nothing)
    } else if t == "F"@ {
        (
            NavModel {
                previous_view: m.view,
                view: "portforwards"@,
                selected: if c.forward_count > 0 { Some(0usize) } else { None },
                ..m
            },
            NavAction::ShowView,
        )
    } else if t == "n"@ {
        (m, NavAction::FocusNamespace)
    } else if t == "?"@ {
        (m, NavAction::Help)
    } else if t == "C"@ {
        (m, if c.chat_available { NavAction::ToggleChat } else { NavAction::Nothing })
    } else if t == "+"@ || t == "="@ || t == "-"@ {
        (m, if !c.read_only && m.view == "deployments"@ && c.has_selection && c.selection_has_namespace && c.connected {
            NavAction::Scale { up: t != "-"@ }
        } else {
            NavAction::Nothing
        })
    } else if t == "R"@ {
        (m, if !c.read_only && (m.view == "deployments"@ || m.view == "statefulsets"@ || m.view == "daemonsets"@) && c.has_selection {
            NavAction::Confirm(ActionType::Restart)
        } else {
            NavAction::Nothing
        })
    } else if t == "T"@ {
        (m, if !c.read_only && m.view == "cronjobs"@ && c.has_selection {
            NavAction::Confirm(ActionType::Trigger)
        } else {
            NavAction::Nothing
        })
    } else {
        (m, NavAction::Alias)
    }
}

/// A character key: the `Ctrl` shortcuts, then the plain hotkeys.
pub open spec fn char_spec(m: NavModel, e: KeyEvent, c: NavContext) -> (NavModel, NavAction) {
    let t = key_text(e);
    if t == "d"@ && e.ctrl {
        if c.read_only {
            (m, NavAction::Nothing)
        } else if m.view == "portforwards"@ {
            match m.selected {
                Some(i) if i < c.forward_count => (m, NavAction::DeleteForward(i)),
                _ => (m, NavAction::Nothing),
            }
        } else {
            (m, if c.has_selection { NavAction::Delete { force: false } } else { NavAction::Nothing })
        }
    } else if t == "k"@ && e.ctrl {
        (m, if !c.read_only && c.has_selection { NavAction::Delete { force: true } } else { NavAction::Nothing })
    } else if t == "i"@ && e.ctrl {
        (m, NavAction::OpenPalette)
    } else if t == "o"@ && e.ctrl && c.desktop {
        (m, if c.read_only { NavAction::Nothing } else { NavAction::OpenFile })
    } else if t == "b"@ && e.ctrl {
        (NavModel { sidebar_visible: !m.sidebar_visible, ..m }, NavAction::Nothing)
    } else if !e.meta && !e.ctrl {
        plain_char_spec(m, t, c)
    } else {
        (m, NavAction::Nothing)
    }
}

fn goto_view(m: &mut NavState, view: &str)
    ensures
        final(m).model() == goto_spec(old(m).model(), view@).0,
{
    let prev = copy_text(&m.view);
    m.previous_view = prev;
    m.view = String::from_str(view);
    m.selected = None;
}

fn plain_char(s: &NavState, t: &[char], c: &NavContext) -> (r: (NavState, NavAction))
    ensures
        r.0.model() == plain_char_spec(s.model(), t@, *c).0,
        r.1 == plain_char_spec(s.model(), t@, *c).1,
{
    let mut m = copy_state(s);
    let pod_row = is_text(&m.view, "pods") && c.has_selection && c.selection_has_namespace;
    if eq_str(t, "o") || eq_str(t, "0") {
        m.view = String::from_str("overview");
        m.selected = None;
        (m, NavAction::ShowView)
    } else if eq_str(t, "1") || eq_str(t, "p") {
        goto_view(&mut m, "pods");
        (m, NavAction::ShowView)
    } else if eq_str(t, "2") {
        goto_view(&mut m, "deployments");
        (m, NavAction::ShowView)
    } else if eq_str(t, "3") {
        goto_view(&mut m, "services");
        (m, NavAction::ShowView)
    } else if eq_str(t, "N") {
        goto_view(&mut m, "nodes");
        (m, NavAction::ShowView)
    } else if eq_str(t, "v") {
        goto_view(&mut m, "events");
        (m, NavAction::ShowView)
    } else if eq_str(t, "d") {
        (m, if c.has_selection { NavAction::Describe } else { NavAction::Nothing })
    } else if eq_str(t, "c") {
        (m, if c.read_only { NavAction::Nothing } else { NavAction::Create })
    } else if eq_str(t, "l") {
        if c.screen == ViewState::ContainerDrillDown {
            let a = match chosen_container_exec(&m, c) {
                Some(i) => NavAction::Logs(Some(i)),
                None => NavAction::Nothing,
            };
            (m, a)
        } else {
            (m, if pod_row { NavAction::Logs(None) } else { NavAction::Nothing })
        }
    } else if eq_str(t, "s") {
        if c.screen == ViewState::ContainerDrillDown {
            let a = if c.read_only {
                NavAction::Nothing
            } else {
                match chosen_container_exec(&m, c) {
                    Some(i) => NavAction::Shell(Some(i)),
                    None => NavAction::Nothing,
                }
            };
            (m, a)
        } else if is_text(&m.view, "pods") {
            (m, if !c.read_only && pod_row { NavAction::Shell(None) } else { NavAction::Nothing })
        } else {
            m.view = String::from_str("services");
            m.selected = None;
            (m, NavAction::ShowView)
        }
    } else if eq_str(t, "f") {
        (m, if !c.read_only && pod_row { NavAction::PortForward } else { NavAction::Nothing })
    } else if eq_str(t, "/") {
        (m, NavAction::FocusSearch)
    } else if eq_str(t, ":") {
        m.command_open = true;
        m.command_input = String::new();
        (m, NavAction::Nothing)
    } else if eq_str(t, "F") {
        goto_view(&mut m, "portforwards");
        m.selected = if c.forward_count > 0 { Some(0) } else { None };
        (m, NavAction::ShowView)
    } else if eq_str(t, "n") {
        (m, NavAction::FocusNamespace)
    } else if eq_str(t, "?") {
        (m, NavAction::Help)
    } else if eq_str(t, "C") {
        (m, if c.chat_available { NavAction::ToggleChat } else { NavAction::Nothing })
    } else if eq_str(t, "+") || eq_str(t, "=") || eq_str(t, "-") {
        let up = !eq_str(t, "-");
        let ok = !c.read_only && is_text(&m.view, "deployments") && c.has_selection && c.selection_has_namespace && c.connected;
        (m, if ok { NavAction::Scale { up: up } } else { NavAction::Nothing })
    } else if eq_str(t, "R") {
        let workload = is_text(&m.view, "deployments") || is_text(&m.view, "statefulsets") || is_text(&m.view, "daemonsets");
        (m, if !c.read_only && workload && c.has_selection { NavAction::Confirm(ActionType::Restart) } else { NavAction::Nothing })
    } else if eq_str(t, "T") {
        let ok = !c.read_only && is_text(&m.view, "cronjobs") && c.has_selection;
        (m, if ok { NavAction::Confirm(ActionType::Trigger) } else { NavAction::Nothing })
    } else {
        (m, NavAction::Alias)
    }
}

/// A character key.
pub fn key_char(s: &NavState, e: &KeyEvent, c: &NavContext) -> (r: (NavState, NavAction))
    ensures
        r.0.model() == char_spec(s.model(), *e, *c).0,
        r.1 == char_spec(s.model(), *e, *c).1,
{
    let t: Vec<char> = match &e.key {
        KeyName::Character(x) => chars_of(x.as_str()),
        _ => Vec::new(),
    };
    assert(t@ == key_text(*e));
    let mut m = copy_state(s);
    if eq_str(t.as_slice(), "d") && e.ctrl {
        if c.read_only {
            (m, NavAction::Nothing)
        } else if is_text(&m.view, "portforwards") {
            match m.selected {
                Some(i) if i < c.forward_count => (m, NavAction::DeleteForward(i)),
                _ => (m, NavAction::Nothing),
            }
        } else {
            (m, if c.has_selection { NavAction::Delete { force: false } } else { NavAction::Nothing })
        }
    } else if eq_str(t.as_slice(), "k") && e.ctrl {
        (m, if !c.read_only && c.has_selection { NavAction::Delete { force: true } } else { NavAction::Nothing })
    } else if eq_str(t.as_slice(), "i") && e.ctrl {
        (m, NavAction::OpenPalette)
    } else if eq_str(t.as_slice(), "o") && e.ctrl && c.desktop {
        (m, if c.read_only { NavAction::Nothing } else { NavAction::OpenFile })
    } else if eq_str(t.as_slice(), "b") && e.ctrl {
        m.sidebar_visible = !m.sidebar_visible;
        (m, NavAction::Nothing)
    } else if !e.meta && !e.ctrl {
        plain_char(s, t.as_slice(), c)
    } else {
        (m, NavAction::Nothing)
    }
}

// ---------------------------------------------------------------------------
// The whole key press
// ---------------------------------------------------------------------------

/// What a key press does once routed to the navigation.
pub open spec fn step_spec(m: NavModel, e: KeyEvent, c: NavContext) -> (NavModel, NavAction) {
    match effective_key(e) {
        NavKey::Left => (left_spec(m, c), NavAction::Nothing),
        NavKey::Right => (right_spec(m), NavAction::Nothing),
        NavKey::Down => down_spec(m, c),
        NavKey::Up => up_spec(m, c),
        NavKey::Enter => enter_spec(m, c),
        NavKey::Escape => escape_spec(m, c),
        NavKey::Char => char_spec(m, e, c),
        _ => (m, NavAction::Nothing),
    }
}

/// Handles a key press that the plugin's hotkeys left to the navigation.
pub fn key_step(s: &NavState, e: &KeyEvent, c: &NavContext) -> (r: (NavState, NavAction))
    requires
        s.child_selected != Some(usize::MAX),
    ensures
        r.0.model() == step_spec(s.model(), *e, *c).0,
        r.1 == step_spec(s.model(), *e, *c).1,
{
    match nav_key(e) {
        NavKey::Left => (key_left(s, c), NavAction::Nothing),
        NavKey::Right => (key_right(s), NavAction::Nothing),
        NavKey::Down => key_down(s, c),
        NavKey::Up => key_up(s, c),
        NavKey::Enter => key_enter(s, c),
        NavKey::Escape => key_escape(s, c),
        NavKey::Char => key_char(s, e, c),
        _ => (copy_state(s), NavAction::Nothing),
    }
}

/// Shows the view an alias names: the view left is remembered and the
/// custom resource definition it names (if any) is selected.
pub fn show_alias(s: &NavState, target: &String) -> (r: (NavState, NavAction))
    ensures
        r.0.model() == goto_spec(s.model(), target@).0,
        r.1 == NavAction::ShowViewSelectCrd,
{
    let mut m = copy_state(s);
    let prev = copy_text(&m.view);
    m.previous_view = prev;
    m.view = copy_text(target);
    m.selected = None;
    (m, NavAction::ShowViewSelectCrd)
}

// ---------------------------------------------------------------------------
// The command line
// ---------------------------------------------------------------------------

/// A key on the `:` command line: Escape closes it; Enter closes it and
/// shows the view the input (or the alias it resolves to) names, if the
/// sidebar has it; Backspace removes the last character; a character is
/// appended. The last component says whether the window takes the focus
/// back.
pub open spec fn command_spec(m: NavModel, e: KeyEvent, c: NavContext, resolved: Option<Seq<char>>) -> (NavModel, NavAction, bool) {
    let closed = NavModel { command_open: false, command_input: Seq::empty(), ..m };
    match effective_key(e) {
        NavKey::Escape => (closed, NavAction::Nothing, true),
        NavKey::Enter => {
            let target = match resolved {
                Some(t) => t,
                None => m.command_input,
            };
            match position_of(items_view(c.sidebar_items@), target) {
                Some(i) => (
                    NavModel { previous_view: m.view, view: target, selected: None, sidebar_selected: Some(i as usize), ..closed },
                    NavAction::ShowViewSelectCrd,
                    true,
                ),
                None => (closed, NavAction::Nothing, true),
            }
        },
        NavKey::Backspace => (
            NavModel {
                command_input: if m.command_input.len() > 0 { m.command_input.drop_last() } else { m.command_input },
                ..m
            },
            NavAction::Nothing,
            false,
        ),
        NavKey::Char => (NavModel { command_input: m.command_input + key_text(e), ..m }, NavAction::Nothing, false),
        _ => (m, NavAction::Nothing, false),
    }
}

/// Handles a key on the command line, given what the plugin configuration
/// resolves the input to (for Enter).
pub fn command_key(s: &NavState, e: &KeyEvent, c: &NavContext, resolved: &Option<String>) -> (r: (NavState, NavAction, bool))
    ensures
        r.0.model() == command_spec(s.model(), *e, *c, crate::resources::opt_view(*resolved)).0,
        r.1 == command_spec(s.model(), *e, *c, crate::resources::opt_view(*resolved)).1,
        r.2 == command_spec(s.model(), *e, *c, crate::resources::opt_view(*resolved)).2,
{
    let mut m = copy_state(s);
    match nav_key(e) {
        NavKey::Escape => {
            m.command_open = false;
            m.command_input = String::new();
            (m, NavAction::Nothing, true)
        },
        NavKey::Enter => {
            let target = match resolved {
                Some(t) => copy_text(t),
                None => copy_text(&m.command_input),
            };
            m.command_open = false;
            m.command_input = String::new();
            match position_in(&c.sidebar_items, &target) {
                Some(i) => {
                    let prev = copy_text(&m.view);
                    m.previous_view = prev;
                    m.view = target;
                    m.selected = None;
                    m.sidebar_selected = Some(i);
                    (m, NavAction::ShowViewSelectCrd, true)
                },
                None => (m, NavAction::Nothing, true),
            }
        },
        NavKey::Backspace => {
            let mut v = chars_of(m.command_input.as_str());
            if v.len() > 0 {
                v.pop();
            }
            m.command_input = string_of(v.as_slice());
            (m, NavAction::Nothing, false)
        },
        NavKey::Char => {
            let mut v = chars_of(m.command_input.as_str());
            match &e.key {
                KeyName::Character(x) => crate::text::push_str(&mut v, x.as_str()),
                _ => {},
            }
            m.command_input = string_of(v.as_slice());
            (m, NavAction::Nothing, false)
        },
        _ => (m, NavAction::Nothing, false),
    }
}

// ---------------------------------------------------------------------------
// Views and search
// ---------------------------------------------------------------------------

/// The resource kind a view lists (the selected custom resource
/// definition's kind on a `crd:` view; empty for other views).
pub open spec fn view_kind_spec(view: Seq<char>, crd_kind: Option<Seq<char>>) -> Seq<char> {
    if view == "pods"@ { "Pod"@ }
    else if view == "deployments"@ { "Deployment"@ }
    else if view == "services"@ { "Service"@ }
    else if view == "statefulsets"@ { "StatefulSet"@ }
    else if view == "daemonsets"@ { "DaemonSet"@ }
    else if view == "jobs"@ { "Job"@ }
    else if view == "cronjobs"@ { "CronJob"@ }
    else if view == "configmaps"@ { "ConfigMap"@ }
    else if view == "secrets"@ { "Secret"@ }
    else if view == "endpoints"@ { "Endpoints"@ }
    else if view == "ingresses"@ { "Ingress"@ }
    else if view == "persistentvolumes"@ { "PersistentVolume"@ }
    else if view == "persistentvolumeclaims"@ { "PersistentVolumeClaim"@ }
    else if view == "storageclasses"@ { "StorageClass"@ }
    else if view == "events"@ { "Event"@ }
    else if view == "nodes"@ { "Node"@ }
    else if view == "roles"@ { "Role"@ }
    else if view == "clusterroles"@ { "ClusterRole"@ }
    else if view == "rolebindings"@ { "RoleBinding"@ }
    else if view == "clusterrolebindings"@ { "ClusterRoleBinding"@ }
    else if crate::text::starts_with(view, "crd:"@) {
        match crd_kind {
            Some(k) => k,
            None => Seq::empty(),
        }
    } else {
        Seq::empty()
    }
}

/// The resource kind a view lists.
pub fn view_kind(view: &str, crd_kind: &Option<String>) -> (r: String)
    ensures
        r@ == view_kind_spec(view@, crate::resources::opt_view(*crd_kind)),
{
    let v = chars_of(view);
    let k = if eq_str(v.as_slice(), "pods") { "Pod" }
    else if eq_str(v.as_slice(), "deployments") { "Deployment" }
    else if eq_str(v.as_slice(), "services") { "Service" }
    else if eq_str(v.as_slice(), "statefulsets") { "StatefulSet" }
    else if eq_str(v.as_slice(), "daemonsets") { "DaemonSet" }
    else if eq_str(v.as_slice(), "jobs") { "Job" }
    else if eq_str(v.as_slice(), "cronjobs") { "CronJob" }
    else if eq_str(v.as_slice(), "configmaps") { "ConfigMap" }
    else if eq_str(v.as_slice(), "secrets") { "Secret" }
    else if eq_str(v.as_slice(), "endpoints") { "Endpoints" }
    else if eq_str(v.as_slice(), "ingresses") { "Ingress" }
    else if eq_str(v.as_slice(), "persistentvolumes") { "PersistentVolume" }
    else if eq_str(v.as_slice(), "persistentvolumeclaims") { "PersistentVolumeClaim" }
    else if eq_str(v.as_slice(), "storageclasses") { "StorageClass" }
    else if eq_str(v.as_slice(), "events") { "Event" }
    else if eq_str(v.as_slice(), "nodes") { "Node" }
    else if eq_str(v.as_slice(), "roles") { "Role" }
    else if eq_str(v.as_slice(), "clusterroles") { "ClusterRole" }
    else if eq_str(v.as_slice(), "rolebindings") { "RoleBinding" }
    else if eq_str(v.as_slice(), "clusterrolebindings") { "ClusterRoleBinding" }
    else if crate::text::starts_with_str(v.as_slice(), "crd:") {
        return match crd_kind {
            Some(k) => copy_text(k),
            None => String::new(),
        };
    } else {
        return String::new();
    };
    String::from_str(k)
}

/// The rows of a list that the search text selects: those whose lowercase
/// name contains the lowercase search text, by index, in order.
pub fn search_rows(items: &[crate::resources::ResourceItem], term: &str) -> (r: Vec<usize>)
    ensures
        forall|k: int| 0 <= k < r@.len() ==> r@[k] < items@.len()
            && crate::text::contains_seq(crate::text::lowercase(items@[r@[k] as int].name@), crate::text::lowercase(term@)),
        forall|k: int, l: int| 0 <= k < l < r@.len() ==> r@[k] < r@[l],
        forall|j: int| 0 <= j < items@.len() && crate::text::contains_seq(crate::text::lowercase(items@[j].name@), crate::text::lowercase(term@))
            ==> r@.contains(j as usize),
{
    let needle = chars_of(crate::text::to_lowercase(term).as_str());
    let mut out: Vec<usize> = Vec::new();
    let mut i: usize = 0;
    while i < items.len()
        invariant
            i <= items@.len(),
            needle@ == crate::text::lowercase(term@),
            forall|k: int| 0 <= k < out@.len() ==> out@[k] < i
                && crate::text::contains_seq(crate::text::lowercase(items@[out@[k] as int].name@), crate::text::lowercase(term@)),
            forall|k: int, l: int| 0 <= k < l < out@.len() ==> out@[k] < out@[l],
            forall|j: int| 0 <= j < i && crate::text::contains_seq(crate::text::lowercase(items@[j].name@), crate::text::lowercase(term@))
                ==> out@.contains(j as usize),
        decreases items@.len() - i,
    {
        let name = chars_of(crate::text::to_lowercase(items[i].name.as_str()).as_str());
        if crate::text::contains_exec(name.as_slice(), needle.as_slice()) {
            let ghost before = out@;
            out.push(i);
            proof {
                assert forall|j: int| 0 <= j < i + 1 && crate::text::contains_seq(crate::text::lowercase(items@[j].name@), crate::text::lowercase(term@))
                    implies out@.contains(j as usize) by {
                    if j == i {
                        assert(out@[out@.len() - 1] == i);
                    } else {
                        let k = choose|k: int| 0 <= k < before.len() && before[k] == j as usize;
                        assert(out@[k] == j as usize);
                    }
                }
            }
        }
        i += 1;
    }
    out
}

/// The drill-down entry the selection points at: its name and namespace,
/// where the entry has both.
pub open spec fn selection_target_spec(entries: Seq<crate::resources::Meta>, idx: Option<usize>) -> Option<(Seq<char>, Seq<char>)> {
    match idx {
        Some(i) if i < entries.len() => match (entries[i as int].name, entries[i as int].namespace) {
            (Some(n), Some(ns)) => Some((n@, ns@)),
            _ => None,
        },
        _ => None,
    }
}

/// The drill-down entry the selection points at.
pub fn selection_target(entries: &Vec<crate::resources::Meta>, idx: Option<usize>) -> (r: Option<(String, String)>)
    ensures
        match r {
            Some((n, ns)) => selection_target_spec(entries@, idx) == Some((n@, ns@)),
            None => selection_target_spec(entries@, idx) is None,
        },
{
    match idx {
        Some(i) if i < entries.len() => match (&entries[i].name, &entries[i].namespace) {
            (Some(n), Some(ns)) => Some((copy_text(n), copy_text(ns))),
            _ => None,
        },
        _ => None,
    }
}

// ---------------------------------------------------------------------------
// Laws
// ---------------------------------------------------------------------------

/// A view shown by a hotkey remembers the view it left, and Escape on the
/// resource list goes back to it.
pub proof fn lemma_escape_returns(m: NavModel, v: Seq<char>, c: NavContext)
    requires
        c.below is None,
        v != "overview"@,
        m.view.len() > 0,
        m.view != v,
    ensures
        escape_spec(goto_spec(m, v).0, c).0.view == m.view,
        escape_spec(goto_spec(m, v).0, c).1 == NavAction::ClearSelection,
{
}

/// On a resource list, Down and Up select a row of the list (Up from a
/// selection at most one past the end).
pub proof fn lemma_rows_in_range(m: NavModel, c: NavContext)
    requires
        m.zone == FocusZone::MainList,
        c.screen != ViewState::ContainerDrillDown,
        !is_child_list(c.screen),
        m.view != "overview"@,
        m.view != "portforwards"@,
        c.item_count > 0,
    ensures
        down_spec(m, c).1 matches NavAction::SelectRow(n) && n < c.item_count,
        (m.selected matches Some(i) ==> i <= c.item_count) ==> (up_spec(m, c).1 matches NavAction::SelectRow(n) && n < c.item_count),
{
}

/// Down then Up comes back to the row selected before, unless Down
/// stopped at the last row.
pub proof fn lemma_down_then_up(m: NavModel, c: NavContext, i: usize)
    requires
        m.zone == FocusZone::MainList,
        c.screen != ViewState::ContainerDrillDown,
        !is_child_list(c.screen),
        m.view != "overview"@,
        m.view != "portforwards"@,
        m.selected == Some(i),
        i + 1 < c.item_count,
    ensures
        up_spec(down_spec(m, c).0, c).0.selected == Some(i),
{
}

/// On the command line, a typed character followed by Backspace leaves
/// the input as it was.
pub proof fn lemma_type_then_backspace(m: NavModel, typed: KeyEvent, back: KeyEvent, c: NavContext, r1: Option<Seq<char>>, r2: Option<Seq<char>>)
    requires
        effective_key(typed) == NavKey::Char,
        key_text(typed).len() == 1,
        effective_key(back) == NavKey::Backspace,
    ensures
        command_spec(command_spec(m, typed, c, r1).0, back, c, r2).0.command_input == m.command_input,
{
    let after = m.command_input + key_text(typed);
    assert(after.drop_last() =~= m.command_input);
}

/// The view hotkeys: a plain (no `Ctrl`, no `Meta`) `1` or `p` shows the
/// pods, `2` the deployments, `3` the services, `N` the nodes and `v` the
/// events; the view left is remembered, the row selection cleared, and
/// nothing else of the state changes.
pub proof fn lemma_view_hotkeys(m: NavModel, e: KeyEvent, c: NavContext, view: Seq<char>)
    requires
        !e.ctrl,
        !e.meta,
        e.key matches KeyName::Character(t) && (
            (t@ == "1"@ && view == "pods"@)
            || (t@ == "p"@ && view == "pods"@)
            || (t@ == "2"@ && view == "deployments"@)
            || (t@ == "3"@ && view == "services"@)
            || (t@ == "N"@ && view == "nodes"@)
            || (t@ == "v"@ && view == "events"@)
        ),
    ensures
        step_spec(m, e, c).1 == NavAction::ShowView,
        step_spec(m, e, c).0 == (NavModel { view: view, previous_view: m.view, selected: None, ..m }),
{
    let t = key_text(e);
    reveal_strlit("j");
    reveal_strlit("k");
    reveal_strlit("[");
    reveal_strlit("o");
    reveal_strlit("0");
    reveal_strlit("1");
    reveal_strlit("p");
    reveal_strlit("2");
    reveal_strlit("3");
    reveal_strlit("N");
    reveal_strlit("v");
    reveal_strlit("d");
    reveal_strlit("i");
    reveal_strlit("b");
    assert(t.len() == 1);
    assert(t == "j"@ <==> t[0] == 'j') by {
        if t[0] == 'j' {
            assert(t =~= "j"@);
        }
    }
    assert(t == "k"@ <==> t[0] == 'k') by {
        if t[0] == 'k' {
            assert(t =~= "k"@);
        }
    }
    assert(t == "["@ <==> t[0] == '[') by {
        if t[0] == '[' {
            assert(t =~= "["@);
        }
    }
    assert(t == "o"@ <==> t[0] == 'o') by {
        if t[0] == 'o' {
            assert(t =~= "o"@);
        }
    }
    assert(t == "0"@ <==> t[0] == '0') by {
        if t[0] == '0' {
            assert(t =~= "0"@);
        }
    }
    assert(t == "1"@ <==> t[0] == '1') by {
        if t[0] == '1' {
            assert(t =~= "1"@);
        }
    }
    assert(t == "p"@ <==> t[0] == 'p') by {
        if t[0] == 'p' {
            assert(t =~= "p"@);
        }
    }
    assert(t == "2"@ <==> t[0] == '2') by {
        if t[0] == '2' {
            assert(t =~= "2"@);
        }
    }
    assert(t == "3"@ <==> t[0] == '3') by {
        if t[0] == '3' {
            assert(t =~= "3"@);
        }
    }
    assert(t == "N"@ <==> t[0] == 'N') by {
        if t[0] == 'N' {
            assert(t =~= "N"@);
        }
    }
    assert(t == "v"@ <==> t[0] == 'v') by {
        if t[0] == 'v' {
            assert(t =~= "v"@);
        }
    }
    assert(effective_key(e) == NavKey::Char);
    if t == "1"@ || t == "p"@ {
        assert(step_spec(m, e, c) == goto_spec(m, "pods"@));
    } else if t == "2"@ {
        assert(step_spec(m, e, c) == goto_spec(m, "deployments"@));
    } else if t == "3"@ {
        assert(step_spec(m, e, c) == goto_spec(m, "services"@));
    } else if t == "N"@ {
        assert(step_spec(m, e, c) == goto_spec(m, "nodes"@));
    } else {
        assert(step_spec(m, e, c) == goto_spec(m, "events"@));
    }
}
/// Plain keys that act without leaving the view: `/` focuses the search
/// field, `n` the namespace selector, `?` opens the help, and `:` opens an
/// empty command line; nothing else of the state changes.
pub proof fn lemma_action_hotkeys(m: NavModel, e: KeyEvent, c: NavContext)
    requires
        !e.ctrl,
        !e.meta,
        e.key matches KeyName::Character(t) && (t@ == "/"@ || t@ == "n"@ || t@ == "?"@ || t@ == ":"@),
    ensures
        key_text(e) == "/"@ ==> step_spec(m, e, c) == (m, NavAction::FocusSearch),
        key_text(e) == "n"@ ==> step_spec(m, e, c) == (m, NavAction::FocusNamespace),
        key_text(e) == "?"@ ==> step_spec(m, e, c) == (m, NavAction::Help),
        key_text(e) == ":"@ ==> step_spec(m, e, c) == (NavModel { command_open: true, command_input: Seq::empty(), ..m }, NavAction::Nothing),
{
    let t = key_text(e);
    reveal_strlit("/");
    reveal_strlit("n");
    reveal_strlit("?");
    reveal_strlit(":");
    assert(t.len() == 1);
    reveal_strlit("j");
    assert(t == "j"@ <==> t[0] == 'j') by {
        if t[0] == 'j' {
            assert(t =~= "j"@);
        }
    }
    reveal_strlit("k");
    assert(t == "k"@ <==> t[0] == 'k') by {
        if t[0] == 'k' {
            assert(t =~= "k"@);
        }
    }
    reveal_strlit("[");
    assert(t == "["@ <==> t[0] == '[') by {
        if t[0] == '[' {
            assert(t =~= "["@);
        }
    }
    reveal_strlit("o");
    assert(t == "o"@ <==> t[0] == 'o') by {
        if t[0] == 'o' {
            assert(t =~= "o"@);
        }
    }
    reveal_strlit("0");
    assert(t == "0"@ <==> t[0] == '0') by {
        if t[0] == '0' {
            assert(t =~= "0"@);
        }
    }
    reveal_strlit("1");
    assert(t == "1"@ <==> t[0] == '1') by {
        if t[0] == '1' {
            assert(t =~= "1"@);
        }
    }
    reveal_strlit("p");
    assert(t == "p"@ <==> t[0] == 'p') by {
        if t[0] == 'p' {
            assert(t =~= "p"@);
        }
    }
    reveal_strlit("2");
    assert(t == "2"@ <==> t[0] == '2') by {
        if t[0] == '2' {
            assert(t =~= "2"@);
        }
    }
    reveal_strlit("3");
    assert(t == "3"@ <==> t[0] == '3') by {
        if t[0] == '3' {
            assert(t =~= "3"@);
        }
    }
    reveal_strlit("N");
    assert(t == "N"@ <==> t[0] == 'N') by {
        if t[0] == 'N' {
            assert(t =~= "N"@);
        }
    }
    reveal_strlit("v");
    assert(t == "v"@ <==> t[0] == 'v') by {
        if t[0] == 'v' {
            assert(t =~= "v"@);
        }
    }
    reveal_strlit("d");
    assert(t == "d"@ <==> t[0] == 'd') by {
        if t[0] == 'd' {
            assert(t =~= "d"@);
        }
    }
    reveal_strlit("c");
    assert(t == "c"@ <==> t[0] == 'c') by {
        if t[0] == 'c' {
            assert(t =~= "c"@);
        }
    }
    reveal_strlit("l");
    assert(t == "l"@ <==> t[0] == 'l') by {
        if t[0] == 'l' {
            assert(t =~= "l"@);
        }
    }
    reveal_strlit("s");
    assert(t == "s"@ <==> t[0] == 's') by {
        if t[0] == 's' {
            assert(t =~= "s"@);
        }
    }
    reveal_strlit("f");
    assert(t == "f"@ <==> t[0] == 'f') by {
        if t[0] == 'f' {
            assert(t =~= "f"@);
        }
    }
    reveal_strlit("/");
    assert(t == "/"@ <==> t[0] == '/') by {
        if t[0] == '/' {
            assert(t =~= "/"@);
        }
    }
    reveal_strlit(":");
    assert(t == ":"@ <==> t[0] == ':') by {
        if t[0] == ':' {
            assert(t =~= ":"@);
        }
    }
    reveal_strlit("F");
    assert(t == "F"@ <==> t[0] == 'F') by {
        if t[0] == 'F' {
            assert(t =~= "F"@);
        }
    }
    reveal_strlit("n");
    assert(t == "n"@ <==> t[0] == 'n') by {
        if t[0] == 'n' {
            assert(t =~= "n"@);
        }
    }
    reveal_strlit("?");
    assert(t == "?"@ <==> t[0] == '?') by {
        if t[0] == '?' {
            assert(t =~= "?"@);
        }
    }
    assert(effective_key(e) == NavKey::Char);
}

/// The `Ctrl` shortcuts: `Ctrl+D` asks to delete the selected resource (the
/// selected port forward in that view) and `Ctrl+K` to force-delete it,
/// neither in read-only mode; `Ctrl+I` opens the command palette and
/// `Ctrl+B` shows or hides the sidebar.
pub proof fn lemma_ctrl_shortcuts(m: NavModel, e: KeyEvent, c: NavContext)
    requires
        e.ctrl,
        e.key matches KeyName::Character(t) && (t@ == "d"@ || t@ == "k"@ || t@ == "i"@ || t@ == "b"@),
    ensures
        key_text(e) == "d"@ ==> step_spec(m, e, c).0 == m && step_spec(m, e, c).1 == (
            if c.read_only { NavAction::Nothing }
            else if m.view == "portforwards"@ {
                if m.selected is Some && m.selected->Some_0 < c.forward_count { NavAction::DeleteForward(m.selected->Some_0) } else { NavAction::Nothing }
            } else if c.has_selection { NavAction::Delete { force: false } } else { NavAction::Nothing }),
        key_text(e) == "k"@ ==> step_spec(m, e, c) == (m, if !c.read_only && c.has_selection { NavAction::Delete { force: true } } else { NavAction::Nothing }),
        key_text(e) == "i"@ ==> step_spec(m, e, c) == (m, NavAction::OpenPalette),
        key_text(e) == "b"@ ==> step_spec(m, e, c) == (NavModel { sidebar_visible: !m.sidebar_visible, ..m }, NavAction::Nothing),
{
    let t = key_text(e);
    reveal_strlit("d");
    reveal_strlit("k");
    reveal_strlit("i");
    reveal_strlit("b");
    assert(t.len() == 1);
    reveal_strlit("o");
    assert(t == "o"@ <==> t[0] == 'o') by {
        if t[0] == 'o' {
            assert(t =~= "o"@);
        }
    }
    reveal_strlit("j");
    assert(t == "j"@ <==> t[0] == 'j') by {
        if t[0] == 'j' {
            assert(t =~= "j"@);
        }
    }
    reveal_strlit("k");
    assert(t == "k"@ <==> t[0] == 'k') by {
        if t[0] == 'k' {
            assert(t =~= "k"@);
        }
    }
    reveal_strlit("[");
    assert(t == "["@ <==> t[0] == '[') by {
        if t[0] == '[' {
            assert(t =~= "["@);
        }
    }
    reveal_strlit("d");
    assert(t == "d"@ <==> t[0] == 'd') by {
        if t[0] == 'd' {
            assert(t =~= "d"@);
        }
    }
    reveal_strlit("i");
    assert(t == "i"@ <==> t[0] == 'i') by {
        if t[0] == 'i' {
            assert(t =~= "i"@);
        }
    }
    reveal_strlit("b");
    assert(t == "b"@ <==> t[0] == 'b') by {
        if t[0] == 'b' {
            assert(t =~= "b"@);
        }
    }
    assert(effective_key(e) == NavKey::Char);
}

} // verus!
