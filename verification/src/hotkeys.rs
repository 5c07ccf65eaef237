//! Command palette entries and the context-aware hotkey hints shown in the
//! footer, and the checks of the key binding editor.

use vstd::prelude::*;
use crate::text::{chars_of, lowercase, push_all, push_str, string_of, to_lowercase};

verus! {

/// A command palette entry.
pub struct Command {
    pub id: String,
    pub label: String,
    pub shortcut: Option<String>,
}

/// A hotkey hint: the key and what it does.
pub struct Hotkey {
    pub key: String,
    pub description: String,
}

/// An external tool configured by a plugin.
pub struct PluginTool {
    pub name: String,
}

/// What the palette reads of the plugin configuration.
pub struct PluginConfig {
    pub tools: Vec<PluginTool>,
}

/// The screens the dashboard navigates between.
#[derive(Clone, Copy, PartialEq, Eq, Structural, Debug)]
pub enum ViewState {
    CreateResource,
    ApplyFile,
    YamlViewer,
    LogViewer,
    ExecViewer,
    ContainerDrillDown,
    DeploymentPods,
    StatefulSetPods,
    DaemonSetPods,
    JobPods,
    CronJobJobs,
    ServiceEndpoints,
    IngressBackends,
    PvcPods,
    ResourceList,
}

/// Commands as (id, label, shortcut).
pub open spec fn commands_view(v: Seq<Command>) -> Seq<(Seq<char>, Seq<char>, Option<Seq<char>>)> {
    Seq::new(v.len(), |i: int| (v[i].id@, v[i].label@, crate::resources::opt_view(v[i].shortcut)))
}

/// The built-in commands.
pub open spec fn base_commands() -> Seq<(Seq<char>, Seq<char>, Option<Seq<char>>)> {
    seq![
        ("overview"@, "Cluster Overview"@, Some("o"@)),
        ("pods"@, "View Pods"@, Some("1/p"@)),
        ("deployments"@, "View Deployments"@, Some("2"@)),
        ("services"@, "View Services"@, Some("3"@)),
    ]
}

fn push_command(v: &mut Vec<Command>, id: &str, label: &str, shortcut: &str)
    ensures
        commands_view(final(v)@) == commands_view(old(v)@).push((id@, label@, Some(shortcut@))),
{
    v.push(Command { id: String::from_str(id), label: String::from_str(label), shortcut: Some(String::from_str(shortcut)) });
    assert(commands_view(v@) =~= commands_view(old(v)@).push((id@, label@, Some(shortcut@))));
}

/// The command palette commands.
pub fn get_commands() -> (r: Vec<Command>)
    ensures
        commands_view(r@) == base_commands(),
{
    let mut v: Vec<Command> = Vec::new();
    assert(commands_view(v@) =~= Seq::empty());
    push_command(&mut v, "overview", "Cluster Overview", "o");
    push_command(&mut v, "pods", "View Pods", "1/p");
    push_command(&mut v, "deployments", "View Deployments", "2");
    push_command(&mut v, "services", "View Services", "3");
    assert(commands_view(v@) =~= base_commands());
    v
}

/// The palette entry that launches an external tool.
pub open spec fn tool_command(name: Seq<char>) -> (Seq<char>, Seq<char>, Option<Seq<char>>) {
    ("tool:"@ + name, "Launch "@ + name, None)
}

/// The commands including one per external tool of the plugin
/// configuration, after the built-in ones.
pub fn get_commands_with_tools(config: &PluginConfig) -> (r: Vec<Command>)
    ensures
        commands_view(r@) == base_commands() + Seq::new(config.tools@.len(), |i: int| tool_command(config.tools@[i].name@)),
{
    let mut v = get_commands();
    let mut i: usize = 0;
    while i < config.tools.len()
        invariant
            i <= config.tools@.len(),
            commands_view(v@) == base_commands() + Seq::new(i as nat, |j: int| tool_command(config.tools@[j].name@)),
        decreases config.tools@.len() - i,
    {
        let ghost before = commands_view(v@);
        let name = chars_of(config.tools[i].name.as_str());
        let mut id = chars_of("tool:");
        push_all(&mut id, name.as_slice());
        let mut label = chars_of("Launch ");
        push_all(&mut label, name.as_slice());
        v.push(Command { id: string_of(id.as_slice()), label: string_of(label.as_slice()), shortcut: None });
        i += 1;
        assert(commands_view(v@) =~= before.push(tool_command(config.tools@[i - 1].name@)));
        assert(commands_view(v@) =~= base_commands() + Seq::new(i as nat, |j: int| tool_command(config.tools@[j].name@)));
    }
    v
}

/// Hotkeys as (key, description).
pub open spec fn hotkeys_view(v: Seq<Hotkey>) -> Seq<(Seq<char>, Seq<char>)> {
    Seq::new(v.len(), |i: int| (v[i].key@, v[i].description@))
}

fn push_hotkey(v: &mut Vec<Hotkey>, key: &str, description: &str)
    ensures
        hotkeys_view(final(v)@) == hotkeys_view(old(v)@).push((key@, description@)),
{
    v.push(Hotkey { key: String::from_str(key), description: String::from_str(description) });
    assert(hotkeys_view(v@) =~= hotkeys_view(old(v)@).push((key@, description@)));
}

/// The extra actions of a resource list by kind of resource shown.
pub open spec fn list_actions(pods: bool, services: bool, deployments: bool, statefulsets: bool, daemonsets: bool, cronjobs: bool) -> Seq<(Seq<char>, Seq<char>)> {
    if pods {
        seq![("l"@, "Logs"@), ("s"@, "Shell"@), ("f"@, "Forward"@)]
    } else if services {
        seq![("f"@, "Forward"@)]
    } else if deployments {
        seq![("+/-"@, "Scale"@), ("R"@, "Restart"@)]
    } else if statefulsets || daemonsets {
        seq![("R"@, "Restart"@)]
    } else if cronjobs {
        seq![("T"@, "Trigger"@)]
    } else {
        Seq::empty()
    }
}

/// The hotkey hints for a screen; on the resource list they depend on
/// whether a resource view (anything but the overview) is shown and of
/// which kind.
pub open spec fn hotkeys_for(nav: ViewState, current_view: Seq<char>, pods: bool, services: bool, deployments: bool, statefulsets: bool, daemonsets: bool, cronjobs: bool) -> Seq<(Seq<char>, Seq<char>)> {
    match nav {
        ViewState::CreateResource => seq![("↑↓"@, "Navigate"@), ("Enter"@, "Select"@), ("Ctrl+S"@, "Apply"@), ("Esc"@, "Back"@)],
        ViewState::ApplyFile => seq![("Ctrl+Enter"@, "Apply"@), ("Esc"@, "Cancel"@)],
        ViewState::YamlViewer => seq![("c"@, "Copy"@), ("h"@, "Toggle View"@), ("w"@, "Toggle Wrap"@), ("↑↓←→"@, "Scroll"@), ("Esc"@, "Back"@)],
        ViewState::LogViewer => seq![("w"@, "Toggle Wrap"@), ("↑↓←→"@, "Scroll"@), ("PgUp/Dn"@, "Page"@), ("Esc"@, "Back"@)],
        ViewState::ExecViewer => seq![("Type"@, "Input"@), ("Enter"@, "Run"@), ("Ctrl+C"@, "Interrupt"@), ("Esc"@, "Back"@)],
        ViewState::ContainerDrillDown => seq![("↑↓"@, "Navigate"@), ("Enter"@, "View Logs"@), ("l"@, "Logs"@), ("s"@, "Shell"@), ("Esc"@, "Back"@)],
        ViewState::DeploymentPods => seq![("↑↓"@, "Navigate"@), ("Enter"@, "Containers"@), ("d"@, "Describe"@), ("l"@, "Logs"@), ("Esc"@, "Back"@)],
        ViewState::StatefulSetPods => seq![("↑↓"@, "Navigate"@), ("Enter"@, "Containers"@), ("d"@, "Describe"@), ("l"@, "Logs"@), ("Esc"@, "Back"@)],
        ViewState::DaemonSetPods => seq![("↑↓"@, "Navigate"@), ("Enter"@, "Containers"@), ("d"@, "Describe"@), ("l"@, "Logs"@), ("Esc"@, "Back"@)],
        ViewState::JobPods => seq![("↑↓"@, "Navigate"@), ("Enter"@, "Containers"@), ("d"@, "Describe"@), ("l"@, "Logs"@), ("Esc"@, "Back"@)],
        ViewState::CronJobJobs => seq![("↑↓"@, "Navigate"@), ("Enter"@, "View Pods"@), ("d"@, "Describe"@), ("Esc"@, "Back"@)],
        ViewState::ServiceEndpoints => seq![("↑↓"@, "Navigate"@), ("Enter"@, "Details"@), ("d"@, "Describe"@), ("Esc"@, "Back"@)],
        ViewState::IngressBackends => seq![("↑↓"@, "Navigate"@), ("Enter"@, "Details"@), ("d"@, "Describe"@), ("Esc"@, "Back"@)],
        ViewState::PvcPods => seq![("↑↓"@, "Navigate"@), ("Enter"@, "Containers"@), ("d"@, "Describe"@), ("Esc"@, "Back"@)],
        ViewState::ResourceList => if current_view != "overview"@ {
            seq![("d"@, "Describe"@), ("^d"@, "Delete"@), ("^k"@, "Kill"@)] + list_actions(pods, services, deployments, statefulsets, daemonsets, cronjobs) + seq![("/"@, "Search"@), ("n"@, "Namespace"@), ("←→"@, "Sidebar"@), ("Esc"@, "Back"@)]
        } else {
            seq![("o"@, "Overview"@), ("1/p"@, "Pods"@), ("2"@, "Deployments"@), ("3"@, "Services"@), ("v"@, "Events"@), ("/"@, "Search"@), (":"@, "Command"@), ("n"@, "Namespace"@), ("?"@, "Help"@)]
        },
    }
}

/// The hotkey hints for the current screen.
pub fn get_hotkeys(
    nav_state: &ViewState,
    current_view: &str,
    is_pods_view: bool,
    is_services_view: bool,
    is_deployments_view: bool,
    is_statefulsets_view: bool,
    is_daemonsets_view: bool,
    is_cronjobs_view: bool,
) -> (r: Vec<Hotkey>)
    ensures
        hotkeys_view(r@) == hotkeys_for(*nav_state, current_view@, is_pods_view, is_services_view, is_deployments_view, is_statefulsets_view, is_daemonsets_view, is_cronjobs_view),
{
    let mut v: Vec<Hotkey> = Vec::new();
    assert(hotkeys_view(v@) =~= Seq::empty());
    match nav_state {
        ViewState::CreateResource => {
            push_hotkey(&mut v, "↑↓", "Navigate");
            push_hotkey(&mut v, "Enter", "Select");
            push_hotkey(&mut v, "Ctrl+S", "Apply");
            push_hotkey(&mut v, "Esc", "Back");
        },
        ViewState::ApplyFile => {
            push_hotkey(&mut v, "Ctrl+Enter", "Apply");
            push_hotkey(&mut v, "Esc", "Cancel");
        },
        ViewState::YamlViewer => {
            push_hotkey(&mut v, "c", "Copy");
            push_hotkey(&mut v, "h", "Toggle View");
            push_hotkey(&mut v, "w", "Toggle Wrap");
            push_hotkey(&mut v, "↑↓←→", "Scroll");
            push_hotkey(&mut v, "Esc", "Back");
        },
        ViewState::LogViewer => {
            push_hotkey(&mut v, "w", "Toggle Wrap");
            push_hotkey(&mut v, "↑↓←→", "Scroll");
            push_hotkey(&mut v, "PgUp/Dn", "Page");
            push_hotkey(&mut v, "Esc", "Back");
        },
        ViewState::ExecViewer => {
            push_hotkey(&mut v, "Type", "Input");
            push_hotkey(&mut v, "Enter", "Run");
            push_hotkey(&mut v, "Ctrl+C", "Interrupt");
            push_hotkey(&mut v, "Esc", "Back");
        },
        ViewState::ContainerDrillDown => {
            push_hotkey(&mut v, "↑↓", "Navigate");
            push_hotkey(&mut v, "Enter", "View Logs");
            push_hotkey(&mut v, "l", "Logs");
            push_hotkey(&mut v, "s", "Shell");
            push_hotkey(&mut v, "Esc", "Back");
        },
        ViewState::DeploymentPods => {
            push_hotkey(&mut v, "↑↓", "Navigate");
            push_hotkey(&mut v, "Enter", "Containers");
            push_hotkey(&mut v, "d", "Describe");
            push_hotkey(&mut v, "l", "Logs");
            push_hotkey(&mut v, "Esc", "Back");
        },
        ViewState::StatefulSetPods => {
            push_hotkey(&mut v, "↑↓", "Navigate");
            push_hotkey(&mut v, "Enter", "Containers");
            push_hotkey(&mut v, "d", "Describe");
            push_hotkey(&mut v, "l", "Logs");
            push_hotkey(&mut v, "Esc", "Back");
        },
        ViewState::DaemonSetPods => {
            push_hotkey(&mut v, "↑↓", "Navigate");
            push_hotkey(&mut v, "Enter", "Containers");
            push_hotkey(&mut v, "d", "Describe");
            push_hotkey(&mut v, "l", "Logs");
            push_hotkey(&mut v, "Esc", "Back");
        },
        ViewState::JobPods => {
            push_hotkey(&mut v, "↑↓", "Navigate");
            push_hotkey(&mut v, "Enter", "Containers");
            push_hotkey(&mut v, "d", "Describe");
            push_hotkey(&mut v, "l", "Logs");
            push_hotkey(&mut v, "Esc", "Back");
        },
        ViewState::CronJobJobs => {
            push_hotkey(&mut v, "↑↓", "Navigate");
            push_hotkey(&mut v, "Enter", "View Pods");
            push_hotkey(&mut v, "d", "Describe");
            push_hotkey(&mut v, "Esc", "Back");
        },
        ViewState::ServiceEndpoints => {
            push_hotkey(&mut v, "↑↓", "Navigate");
            push_hotkey(&mut v, "Enter", "Details");
            push_hotkey(&mut v, "d", "Describe");
            push_hotkey(&mut v, "Esc", "Back");
        },
        ViewState::IngressBackends => {
            push_hotkey(&mut v, "↑↓", "Navigate");
            push_hotkey(&mut v, "Enter", "Details");
            push_hotkey(&mut v, "d", "Describe");
            push_hotkey(&mut v, "Esc", "Back");
        },
        ViewState::PvcPods => {
            push_hotkey(&mut v, "↑↓", "Navigate");
            push_hotkey(&mut v, "Enter", "Containers");
            push_hotkey(&mut v, "d", "Describe");
            push_hotkey(&mut v, "Esc", "Back");
        },
        ViewState::ResourceList => {
            let is_resource_view = !crate::text::eq_str(chars_of(current_view).as_slice(), "overview");
            if is_resource_view {
                push_hotkey(&mut v, "d", "Describe");
                push_hotkey(&mut v, "^d", "Delete");
                push_hotkey(&mut v, "^k", "Kill");
                if is_pods_view {
                    push_hotkey(&mut v, "l", "Logs");
                    push_hotkey(&mut v, "s", "Shell");
                    push_hotkey(&mut v, "f", "Forward");
                } else if is_services_view {
                    push_hotkey(&mut v, "f", "Forward");
                } else if is_deployments_view {
                    push_hotkey(&mut v, "+/-", "Scale");
                    push_hotkey(&mut v, "R", "Restart");
                } else if is_statefulsets_view || is_daemonsets_view {
                    push_hotkey(&mut v, "R", "Restart");
                } else if is_cronjobs_view {
                    push_hotkey(&mut v, "T", "Trigger");
                }
                push_hotkey(&mut v, "/", "Search");
                push_hotkey(&mut v, "n", "Namespace");
                push_hotkey(&mut v, "←→", "Sidebar");
                push_hotkey(&mut v, "Esc", "Back");
            } else {
                push_hotkey(&mut v, "o", "Overview");
                push_hotkey(&mut v, "1/p", "Pods");
                push_hotkey(&mut v, "2", "Deployments");
                push_hotkey(&mut v, "3", "Services");
                push_hotkey(&mut v, "v", "Events");
                push_hotkey(&mut v, "/", "Search");
                push_hotkey(&mut v, ":", "Command");
                push_hotkey(&mut v, "n", "Namespace");
                push_hotkey(&mut v, "?", "Help");
            }
        },
    }
    assert(hotkeys_view(v@) =~= hotkeys_for(*nav_state, current_view@, is_pods_view, is_services_view, is_deployments_view, is_statefulsets_view, is_daemonsets_view, is_cronjobs_view));
    v
}

// ---------------------------------------------------------------------------
// Key binding editor
// ---------------------------------------------------------------------------

/// A key of a keyboard event.
pub enum KeyName {
    Character(String),
    Control,
    Shift,
    Alt,
    Meta,
    Escape,
    Enter,
    Tab,
    Backspace,
    Delete,
    ArrowUp,
    ArrowDown,
    ArrowLeft,
    ArrowRight,
    Home,
    End,
    PageUp,
    PageDown,
    Other,
}

/// A keyboard event: its key, the modifiers held, and the key name of its
/// physical key code where one is known.
pub struct KeyEvent {
    pub key: KeyName,
    pub ctrl: bool,
    pub shift: bool,
    pub alt: bool,
    pub meta: bool,
    pub code_key: Option<String>,
}

/// A bare modifier or Escape (ignored while recording a binding).
pub open spec fn modifier_or_escape(k: KeyName) -> bool {
    match k {
        KeyName::Control | KeyName::Shift | KeyName::Alt | KeyName::Meta | KeyName::Escape => true,
        _ => false,
    }
}

/// Whether a key is a bare modifier or Escape.
pub fn is_modifier_or_escape(key: &KeyName) -> (r: bool)
    ensures
        r == modifier_or_escape(*key),
{
    match key {
        KeyName::Control | KeyName::Shift | KeyName::Alt | KeyName::Meta | KeyName::Escape => true,
        _ => false,
    }
}

/// No character of `s` is a control character.
pub open spec fn no_controls(s: Seq<char>) -> bool {
    forall|i: int| 0 <= i < s.len() ==> !crate::terminal::is_control(#[trigger] s[i])
}

/// The key part of a recorded binding, if the event gives one.
pub open spec fn key_part(e: KeyEvent) -> Option<Seq<char>> {
    let mods = e.ctrl || e.alt || e.meta;
    let code = crate::resources::opt_view(e.code_key);
    match e.key {
        KeyName::Character(c) => if !mods || no_controls(c@) { Some(c@) } else { code },
        KeyName::Enter => if !mods { Some("Enter"@) } else { code },
        KeyName::Tab => if !mods { Some("Tab"@) } else { code },
        KeyName::Backspace => if !mods { Some("Backspace"@) } else { code },
        KeyName::Delete => if !mods { Some("Delete"@) } else { code },
        _ => if mods {
            code
        } else {
            match e.key {
                KeyName::ArrowUp => Some("ArrowUp"@),
                KeyName::ArrowDown => Some("ArrowDown"@),
                KeyName::ArrowLeft => Some("ArrowLeft"@),
                KeyName::ArrowRight => Some("ArrowRight"@),
                KeyName::Home => Some("Home"@),
                KeyName::End => Some("End"@),
                KeyName::PageUp => Some("PageUp"@),
                KeyName::PageDown => Some("PageDown"@),
                _ => None,
            }
        },
    }
}

/// The binding text of an event: the held modifiers in the order `Ctrl`,
/// `Shift`, `Alt`, `Meta`, then the key, joined with `+`.
pub open spec fn hotkey_text(e: KeyEvent) -> Option<Seq<char>> {
    if modifier_or_escape(e.key) {
        None
    } else {
        match key_part(e) {
            None => None,
            Some(k) => Some(
                (if e.ctrl { "Ctrl+"@ } else { Seq::empty() })
                + (if e.shift { "Shift+"@ } else { Seq::empty() })
                + (if e.alt { "Alt+"@ } else { Seq::empty() })
                + (if e.meta { "Meta+"@ } else { Seq::empty() })
                + k,
            ),
        }
    }
}

fn no_controls_exec(s: &str) -> (r: bool)
    ensures
        r == no_controls(s@),
{
    let c = chars_of(s);
    let mut i: usize = 0;
    while i < c.len()
        invariant
            i <= c@.len(),
            c@ == s@,
            forall|j: int| 0 <= j < i ==> !crate::terminal::is_control(c@[j]),
        decreases c@.len() - i,
    {
        let u = c[i] as u32;
        if u < 0x20 || (0x7f <= u && u < 0xa0) {
            return false;
        }
        i += 1;
    }
    true
}

/// Builds the binding text (such as `Ctrl+Shift+L`) of a keyboard event
/// being recorded; `None` for bare modifiers, Escape and keys that cannot
/// be bound.
pub fn hotkey_from_event(e: &KeyEvent) -> (r: Option<String>)
    ensures
        crate::resources::opt_view(r) == hotkey_text(*e),
{
    if is_modifier_or_escape(&e.key) {
        return None;
    }
    let mods = e.ctrl || e.alt || e.meta;
    let code = crate::resources::opt_clone(&e.code_key);
    let key: Option<String> = match &e.key {
        KeyName::Character(c) => if !mods || no_controls_exec(c.as_str()) { Some(c.clone()) } else { code },
        KeyName::Enter => if !mods { Some(String::from_str("Enter")) } else { code },
        KeyName::Tab => if !mods { Some(String::from_str("Tab")) } else { code },
        KeyName::Backspace => if !mods { Some(String::from_str("Backspace")) } else { code },
        KeyName::Delete => if !mods { Some(String::from_str("Delete")) } else { code },
        _ => if mods {
            code
        } else {
            match &e.key {
                KeyName::ArrowUp => Some(String::from_str("ArrowUp")),
                KeyName::ArrowDown => Some(String::from_str("ArrowDown")),
                KeyName::ArrowLeft => Some(String::from_str("ArrowLeft")),
                KeyName::ArrowRight => Some(String::from_str("ArrowRight")),
                KeyName::Home => Some(String::from_str("Home")),
                KeyName::End => Some(String::from_str("End")),
                KeyName::PageUp => Some(String::from_str("PageUp")),
                KeyName::PageDown => Some(String::from_str("PageDown")),
                _ => None,
            }
        },
    };
    let k = match key {
        Some(k) => k,
        None => {
            return None;
        },
    };
    let mut out: Vec<char> = Vec::new();
    if e.ctrl {
        push_str(&mut out, "Ctrl+");
    }
    if e.shift {
        push_str(&mut out, "Shift+");
    }
    if e.alt {
        push_str(&mut out, "Alt+");
    }
    if e.meta {
        push_str(&mut out, "Meta+");
    }
    push_all(&mut out, chars_of(k.as_str()).as_slice());
    proof {
        let pre = (if e.ctrl { "Ctrl+"@ } else { Seq::<char>::empty() })
            + (if e.shift { "Shift+"@ } else { Seq::<char>::empty() })
            + (if e.alt { "Alt+"@ } else { Seq::<char>::empty() })
            + (if e.meta { "Meta+"@ } else { Seq::<char>::empty() });
        assert(out@ =~= pre + k@);
    }
    Some(string_of(out.as_slice()))
}

/// A parsed binding: its modifiers and its key.
pub struct ParsedHotkey {
    pub ctrl: bool,
    pub shift: bool,
    pub alt: bool,
    pub meta: bool,
    pub key: String,
}

/// One configurable action: its category, id, label, binding text, the
/// context in which it is active, and the binding text parsed.
pub struct BindingEntry {
    pub category: String,
    pub action_id: String,
    pub label: String,
    pub value: String,
    pub context: String,
    pub parsed: ParsedHotkey,
}

/// The canonical form of a binding: modifier letters `C`, `S`, `A`, `M`
/// then the lowercase key.
pub open spec fn canonical(p: ParsedHotkey) -> Seq<char> {
    (if p.ctrl { "C"@ } else { Seq::empty() })
    + (if p.shift { "S"@ } else { Seq::empty() })
    + (if p.alt { "A"@ } else { Seq::empty() })
    + (if p.meta { "M"@ } else { Seq::empty() })
    + lowercase(p.key@)
}

/// Two bound actions clash: the same key in the same context for
/// different actions.
pub open spec fn clash(p: BindingEntry, e: BindingEntry) -> bool {
    &&& p.value@.len() > 0
    &&& e.value@.len() > 0
    &&& canonical(p.parsed) == canonical(e.parsed)
    &&& p.action_id@ != e.action_id@
    &&& p.context@ == e.context@
}

/// The message for a clash.
pub open spec fn clash_text(p: BindingEntry, e: BindingEntry) -> Seq<char> {
    "\""@ + p.label@ + "\" and \""@ + e.label@ + "\" both use "@ + e.value@
}

/// Messages for the clashes of `e` with the earlier entries, in order.
pub open spec fn clashes_with(prev: Seq<BindingEntry>, e: BindingEntry) -> Seq<Seq<char>>
    decreases prev.len(),
{
    if prev.len() == 0 {
        Seq::empty()
    } else {
        clashes_with(prev.drop_last(), e) + if clash(prev.last(), e) { seq![clash_text(prev.last(), e)] } else { Seq::empty() }
    }
}

/// All clash messages, in the order the entries come.
pub open spec fn all_clashes(entries: Seq<BindingEntry>) -> Seq<Seq<char>>
    decreases entries.len(),
{
    if entries.len() == 0 {
        Seq::empty()
    } else {
        all_clashes(entries.drop_last()) + clashes_with(entries.drop_last(), entries.last())
    }
}

/// Texts joined with `; `.
pub open spec fn join_semicolon(parts: Seq<Seq<char>>) -> Seq<char>
    decreases parts.len(),
{
    if parts.len() == 0 {
        Seq::empty()
    } else if parts.len() == 1 {
        parts[0]
    } else {
        join_semicolon(parts.drop_last()) + "; "@ + parts.last()
    }
}

fn canonical_exec(p: &ParsedHotkey) -> (r: Vec<char>)
    ensures
        r@ == canonical(*p),
{
    let mut v: Vec<char> = Vec::new();
    if p.ctrl {
        push_str(&mut v, "C");
    }
    if p.shift {
        push_str(&mut v, "S");
    }
    if p.alt {
        push_str(&mut v, "A");
    }
    if p.meta {
        push_str(&mut v, "M");
    }
    push_all(&mut v, chars_of(to_lowercase(p.key.as_str()).as_str()).as_slice());
    proof {
        let pre = (if p.ctrl { "C"@ } else { Seq::<char>::empty() })
            + (if p.shift { "S"@ } else { Seq::<char>::empty() })
            + (if p.alt { "A"@ } else { Seq::<char>::empty() })
            + (if p.meta { "M"@ } else { Seq::<char>::empty() });
        assert(v@ =~= pre + lowercase(p.key@));
    }
    v
}

fn clash_label(p: &BindingEntry, e: &BindingEntry) -> (r: Vec<char>)
    ensures
        r@ == clash_text(*p, *e),
{
    let mut v = chars_of("\"");
    push_all(&mut v, chars_of(p.label.as_str()).as_slice());
    push_str(&mut v, "\" and \"");
    push_all(&mut v, chars_of(e.label.as_str()).as_slice());
    push_str(&mut v, "\" both use ");
    push_all(&mut v, chars_of(e.value.as_str()).as_slice());
    v
}

/// Finds bindings that clash within a context: `None` without clashes,
/// else their messages joined with `; `.
pub fn detect_conflicts(entries: &[BindingEntry]) -> (r: Option<String>)
    ensures
        match r {
            None => all_clashes(entries@).len() == 0,
            Some(t) => all_clashes(entries@).len() > 0 && t@ == join_semicolon(all_clashes(entries@)),
        },
{
    let mut canon: Vec<Vec<char>> = Vec::new();
    let mut out: Vec<char> = Vec::new();
    let mut any = false;
    let ghost mut msgs: Seq<Seq<char>> = Seq::empty();
    let mut i: usize = 0;
    assert(entries@.take(0) =~= Seq::<BindingEntry>::empty());
    while i < entries.len()
        invariant
            i <= entries@.len(),
            canon@.len() == i,
            forall|j: int| 0 <= j < i ==> #[trigger] canon@[j]@ == canonical(entries@[j].parsed),
            msgs == all_clashes(entries@.take(i as int)),
            out@ == join_semicolon(msgs),
            any == (msgs.len() > 0),
        decreases entries@.len() - i,
    {
        let e = &entries[i];
        let c = canonical_exec(&e.parsed);
        canon.push(c);
        proof {
            assert(entries@.take(i + 1).drop_last() =~= entries@.take(i as int));
            assert(entries@.take(i + 1).last() == entries@[i as int]);
        }
        let ghost base = msgs;
        let mut j: usize = 0;
        assert(entries@.take(0) =~= Seq::<BindingEntry>::empty());
        while j < i
            invariant
                j <= i,
                i < entries@.len(),
                *e == entries@[i as int],
                canon@.len() == i + 1,
                forall|k: int| 0 <= k <= i ==> #[trigger] canon@[k]@ == canonical(entries@[k].parsed),
                msgs == base + clashes_with(entries@.take(j as int), entries@[i as int]),
                out@ == join_semicolon(msgs),
                any == (msgs.len() > 0),
            decreases i - j,
        {
            proof {
                assert(entries@.take(j + 1).drop_last() =~= entries@.take(j as int));
                assert(entries@.take(j + 1).last() == entries@[j as int]);
            }
            let p = &entries[j];
            let ghost cl = clash(entries@[j as int], entries@[i as int]);
            if !p.value.as_str().is_empty() && !e.value.as_str().is_empty() && crate::text::chars_eq(canon[j].as_slice(), canon[i].as_slice())
                && !(p.action_id == e.action_id) && p.context == e.context {
                let m = clash_label(p, e);
                assert(cl);
                if any {
                    push_str(&mut out, "; ");
                }
                push_all(&mut out, m.as_slice());
                proof {
                    let old_msgs = msgs;
                    msgs = msgs.push(m@);
                    assert(msgs.drop_last() =~= old_msgs);
                    if old_msgs.len() == 0 {
                        assert(out@ =~= join_semicolon(msgs));
                    }
                }
                any = true;
            } else {
                assert(!cl);
            }
            proof {
                let t = entries@.take(j + 1);
                assert(msgs =~= base + clashes_with(t, entries@[i as int]));
            }
            j += 1;
        }
        assert(entries@.take(i as int) =~= entries@.take(i as int).take(i as int));
        i += 1;
    }
    assert(entries@.take(i as int) =~= entries@);
    if !any {
        None
    } else {
        Some(string_of(out.as_slice()))
    }
}

// ---------------------------------------------------------------------------
// Terminal input
// ---------------------------------------------------------------------------

/// What a key press in the terminal view does.
pub enum TermKey {
    /// Leave the terminal.
    Back,
    /// Send these bytes to the shell's input, and consume the key.
    Send(Vec<u8>),
    /// Consume the key without sending anything.
    Swallow,
    /// Leave the key to others.
    Ignore,
}

/// The control byte for `Ctrl` with a (lowercased) key, if the terminal
/// maps one.
pub open spec fn ctrl_byte(k: Seq<char>) -> Option<u8> {
    if k == "c"@ { Some(0x03u8) }
    else if k == "d"@ { Some(0x04u8) }
    else if k == "h"@ { Some(0x7fu8) }
    else if k == "l"@ { Some(0x0cu8) }
    else if k == "z"@ { Some(0x1au8) }
    else if k == "a"@ { Some(0x01u8) }
    else if k == "e"@ { Some(0x05u8) }
    else if k == "u"@ { Some(0x15u8) }
    else if k == "k"@ { Some(0x0bu8) }
    else if k == "w"@ { Some(0x17u8) }
    else { None }
}

/// The effect of a key press in the terminal view: `None` to leave the
/// view, `Some(None)` to leave the key to others, `Some(Some(None))` to
/// consume it without input, `Some(Some(Some(b)))` to send the bytes `b`.
pub open spec fn term_key_spec(e: KeyEvent, connected: bool) -> Option<Option<Option<Seq<u8>>>> {
    match e.key {
        KeyName::Escape => None,
        _ => if !connected {
            Some(None)
        } else {
            match e.key {
                KeyName::Enter => Some(Some(Some(seq![0x0au8]))),
                KeyName::Backspace => Some(Some(Some(seq![0x7fu8]))),
                KeyName::Character(c) => if c@ == "\u{8}"@ || c@ == "\x7f"@ {
                    Some(Some(Some(seq![0x7fu8])))
                } else if e.ctrl {
                    match ctrl_byte(lowercase(c@)) {
                        Some(b) => Some(Some(Some(seq![b]))),
                        None => Some(Some(None)),
                    }
                } else if !e.meta && !e.alt {
                    Some(Some(Some(vstd::utf8::encode_utf8(c@))))
                } else {
                    Some(Some(None))
                },
                KeyName::Tab => Some(Some(Some(seq![0x09u8]))),
                KeyName::ArrowUp => Some(Some(Some(seq![0x1bu8, 0x5bu8, 0x41u8]))),
                KeyName::ArrowDown => Some(Some(Some(seq![0x1bu8, 0x5bu8, 0x42u8]))),
                KeyName::ArrowLeft => Some(Some(Some(seq![0x1bu8, 0x5bu8, 0x44u8]))),
                KeyName::ArrowRight => Some(Some(Some(seq![0x1bu8, 0x5bu8, 0x43u8]))),
                KeyName::Home => Some(Some(Some(seq![0x1bu8, 0x5bu8, 0x48u8]))),
                KeyName::End => Some(Some(Some(seq![0x1bu8, 0x5bu8, 0x46u8]))),
                KeyName::Delete => Some(Some(Some(seq![0x1bu8, 0x5bu8, 0x33u8, 0x7eu8]))),
                _ => Some(None),
            }
        },
    }
}

fn bytes(v: &[u8]) -> (r: Vec<u8>)
    ensures
        r@ == v@,
{
    vstd::slice::slice_to_vec(v)
}

/// Maps a key press in the terminal view to what it sends to the shell
/// (see `term_key_spec`); a plain character sends its UTF-8 bytes, empty
/// text included.
pub fn terminal_key(e: &KeyEvent, connected: bool) -> (r: TermKey)
    ensures
        match r {
            TermKey::Back => term_key_spec(*e, connected) is None,
            TermKey::Send(b) => term_key_spec(*e, connected) == Some(Some(Some(b@))),
            TermKey::Swallow => term_key_spec(*e, connected) == Some(Some(None::<Seq<u8>>)),
            TermKey::Ignore => term_key_spec(*e, connected) == Some(None::<Option<Seq<u8>>>),
        },
{
    if let KeyName::Escape = e.key {
        return TermKey::Back;
    }
    if !connected {
        return TermKey::Ignore;
    }
    match &e.key {
        KeyName::Enter => TermKey::Send(bytes(&[0x0au8])),
        KeyName::Backspace => TermKey::Send(bytes(&[0x7fu8])),
        KeyName::Character(c) => {
            let cc = chars_of(c.as_str());
            if crate::text::eq_str(cc.as_slice(), "\u{8}") || crate::text::eq_str(cc.as_slice(), "\x7f") {
                TermKey::Send(bytes(&[0x7fu8]))
            } else if e.ctrl {
                let l = chars_of(to_lowercase(c.as_str()).as_str());
                let ls = l.as_slice();
                let b: Option<u8> = if crate::text::eq_str(ls, "c") { Some(0x03u8) }
                    else if crate::text::eq_str(ls, "d") { Some(0x04u8) }
                    else if crate::text::eq_str(ls, "h") { Some(0x7fu8) }
                    else if crate::text::eq_str(ls, "l") { Some(0x0cu8) }
                    else if crate::text::eq_str(ls, "z") { Some(0x1au8) }
                    else if crate::text::eq_str(ls, "a") { Some(0x01u8) }
                    else if crate::text::eq_str(ls, "e") { Some(0x05u8) }
                    else if crate::text::eq_str(ls, "u") { Some(0x15u8) }
                    else if crate::text::eq_str(ls, "k") { Some(0x0bu8) }
                    else if crate::text::eq_str(ls, "w") { Some(0x17u8) }
                    else { None };
                match b {
                    Some(x) => {
                        let v = bytes(&[x]);
                        assert(v@ =~= seq![x]);
                        TermKey::Send(v)
                    },
                    None => TermKey::Swallow,
                }
            } else if !e.meta && !e.alt {
                TermKey::Send(c.as_str().as_bytes_vec())
            } else {
                TermKey::Swallow
            }
        },
        KeyName::Tab => TermKey::Send(bytes(&[0x09u8])),
        KeyName::ArrowUp => TermKey::Send(bytes(&[0x1bu8, 0x5bu8, 0x41u8])),
        KeyName::ArrowDown => TermKey::Send(bytes(&[0x1bu8, 0x5bu8, 0x42u8])),
        KeyName::ArrowLeft => TermKey::Send(bytes(&[0x1bu8, 0x5bu8, 0x44u8])),
        KeyName::ArrowRight => TermKey::Send(bytes(&[0x1bu8, 0x5bu8, 0x43u8])),
        KeyName::Home => TermKey::Send(bytes(&[0x1bu8, 0x5bu8, 0x48u8])),
        KeyName::End => TermKey::Send(bytes(&[0x1bu8, 0x5bu8, 0x46u8])),
        KeyName::Delete => TermKey::Send(bytes(&[0x1bu8, 0x5bu8, 0x33u8, 0x7eu8])),
        _ => TermKey::Ignore,
    }
}

proof fn lemma_no_clash_with(prev: Seq<BindingEntry>, e: BindingEntry)
    requires
        forall|i: int| 0 <= i < prev.len() ==> prev[i].context@ != e.context@,
    ensures
        clashes_with(prev, e).len() == 0,
    decreases prev.len(),
{
    if prev.len() > 0 {
        lemma_no_clash_with(prev.drop_last(), e);
    }
}

/// Bindings in different contexts never clash: where every entry has a
/// context of its own, no conflict is reported.
pub proof fn lemma_contexts_apart(entries: Seq<BindingEntry>)
    requires
        forall|i: int, j: int| 0 <= i < j < entries.len() ==> entries[i].context@ != entries[j].context@,
    ensures
        all_clashes(entries).len() == 0,
    decreases entries.len(),
{
    if entries.len() > 0 {
        let prev = entries.drop_last();
        lemma_contexts_apart(prev);
        assert forall|i: int| 0 <= i < prev.len() implies prev[i].context@ != entries.last().context@ by {
            assert(entries[i].context@ != entries[entries.len() - 1].context@);
        }
        lemma_no_clash_with(prev, entries.last());
    }
}

} // verus!
