//! The decisions of the dashboard's smaller screens: confirmation dialogs,
//! manifest previews, the log viewer, the cluster overview cards, the job
//! and container drill-downs, the command palette and the port forward
//! dialog.

use vstd::prelude::*;
use crate::num::{int_dec, nat_dec};
use crate::resources::{age_text, format_age, opt_view, or_text, or_text_exec, Condition, since};
use crate::text::{chars_of, contains_seq, lowercase, push_all, push_str, string_of, to_lowercase};

verus! {

// ---------------------------------------------------------------------------
// Dialog data
// ---------------------------------------------------------------------------

/// The kind of action a confirmation dialog asks about.
#[derive(Clone, Copy, PartialEq, Eq, Structural, Debug)]
pub enum ActionType {
    Restart,
    Trigger,
}

impl ActionType {
    /// The dialog title.
    pub fn title(&self) -> (r: &'static str)
        ensures
            r@ == (match *self {
                ActionType::Restart => "Restart Workload"@,
                ActionType::Trigger => "Trigger Job"@,
            }),
    {
        match self {
            ActionType::Restart => "Restart Workload",
            ActionType::Trigger => "Trigger Job",
        }
    }

    /// What the action does.
    pub fn description(&self) -> (r: &'static str)
        ensures
            r@ == (match *self {
                ActionType::Restart => "This will perform a rolling restart of the workload, replacing all pods."@,
                ActionType::Trigger => "This will create a new Job from the CronJob template."@,
            }),
    {
        match self {
            ActionType::Restart => "This will perform a rolling restart of the workload, replacing all pods.",
            ActionType::Trigger => "This will create a new Job from the CronJob template.",
        }
    }

    /// The confirm button's text.
    pub fn button_text(&self) -> (r: &'static str)
        ensures
            r@ == (match *self {
                ActionType::Restart => "Restart"@,
                ActionType::Trigger => "Trigger"@,
            }),
    {
        match self {
            ActionType::Restart => "Restart",
            ActionType::Trigger => "Trigger",
        }
    }

    /// The confirm button's style class.
    pub fn button_class(&self) -> (r: &'static str)
        ensures
            r@ == (match *self {
                ActionType::Restart => "action-btn warning"@,
                ActionType::Trigger => "action-btn primary"@,
            }),
    {
        match self {
            ActionType::Restart => "action-btn warning",
            ActionType::Trigger => "action-btn primary",
        }
    }
}

/// The object an action applies to.
pub struct ActionTarget {
    pub name: String,
    pub namespace: Option<String>,
    pub kind: String,
}

/// The object a delete dialog applies to.
pub struct DeleteTarget {
    pub name: String,
    pub namespace: Option<String>,
    pub kind: String,
}

/// A kubeconfig context in the cluster selector.
pub struct Context {
    pub name: String,
    pub is_current: bool,
}

/// Where a manifest to apply comes from: a file path.
pub enum ApplySource {
    File(String),
}

/// The steps of applying a manifest.
pub enum ApplyManifestState {
    Loading,
    Preview { yaml: String, source: String, doc_count: usize },
    Applying,
    Results { applied: Vec<String>, errors: Vec<String> },
    Error(String),
}

/// The steps of creating a resource from a template.
pub enum CreateState {
    SelectTemplate,
    EditYaml(String),
    Applying,
    Success(String),
    Error(String),
}

// ---------------------------------------------------------------------------
// Creating resources from templates
// ---------------------------------------------------------------------------

/// `str::replace(p, r)` for a nonempty pattern: every occurrence, taken
/// from the left without overlaps, replaced.
#[verifier::opaque]
pub open spec fn replace_text(s: Seq<char>, p: Seq<char>, r: Seq<char>) -> Seq<char>
    decreases s.len(),
{
    match crate::connector::first_occurrence(s, p) {
        Some(i) => if p.len() > 0 && 0 <= i && i + p.len() <= s.len() {
            s.take(i) + r + replace_text(s.skip(i + p.len()), p, r)
        } else {
            s
        },
        None => s,
    }
}

proof fn lemma_replace_step(s: Seq<char>, p: Seq<char>, r: Seq<char>, i: int)
    requires
        crate::connector::first_occurrence(s, p) == Some(i),
        p.len() > 0,
        0 <= i,
        i + p.len() <= s.len(),
    ensures
        replace_text(s, p, r) == s.take(i) + r + replace_text(s.skip(i + p.len()), p, r),
{
    reveal(replace_text);
}

proof fn lemma_replace_last(s: Seq<char>, p: Seq<char>, r: Seq<char>)
    requires
        crate::connector::first_occurrence(s, p) is None,
    ensures
        replace_text(s, p, r) == s,
{
    reveal(replace_text);
}

/// Replaces every occurrence of `p` (not empty) in `s` with `r`.
pub fn replace_all(s: &str, p: &str, r: &str) -> (out: String)
    requires
        p@.len() > 0,
    ensures
        out@ == replace_text(s@, p@, r@),
{
    let pc = chars_of(p);
    let sc = chars_of(s);
    let mut rest = crate::json::slice_chars(sc.as_slice(), 0, sc.len());
    let mut acc: Vec<char> = Vec::new();
    assert(rest@ =~= s@);
    loop
        invariant
            pc@ == p@,
            pc@.len() > 0,
            replace_text(s@, p@, r@) == acc@ + replace_text(rest@, p@, r@),
        decreases rest@.len(),
    {
        match crate::connector::find_seq(rest.as_slice(), pc.as_slice()) {
            Some(i) => {
                let rl = rest.len();
                let before = crate::json::slice_chars(rest.as_slice(), 0, i);
                let after = crate::json::slice_chars(rest.as_slice(), i + pc.len(), rl);
                proof {
                    assert(before@ =~= rest@.take(i as int));
                    assert(after@ =~= rest@.skip(i + p@.len()));
                    lemma_replace_step(rest@, p@, r@, i as int);
                }
                let ghost old_acc = acc@;
                push_all(&mut acc, before.as_slice());
                push_str(&mut acc, r);
                assert(old_acc + (rest@.take(i as int) + r@ + replace_text(after@, p@, r@)) =~= acc@ + replace_text(after@, p@, r@));
                rest = after;
            },
            None => {
                proof {
                    lemma_replace_last(rest@, p@, r@);
                }
                push_all(&mut acc, rest.as_slice());
                return string_of(acc.as_slice());
            },
        }
    }
}

/// A template's YAML for a namespace: `namespace: default` becomes the
/// given namespace.
pub open spec fn template_yaml_spec(yaml: Seq<char>, ns: Option<Seq<char>>) -> Seq<char> {
    match ns {
        Some(n) => replace_text(yaml, "namespace: default"@, "namespace: "@ + n),
        None => yaml,
    }
}

/// The YAML a template starts the editor with.
pub fn template_yaml(yaml: &str, ns: &Option<String>) -> (r: String)
    ensures
        r@ == template_yaml_spec(yaml@, opt_view(*ns)),
{
    match ns {
        Some(n) => {
            proof {
                reveal_strlit("namespace: default");
            }
            let mut rv = chars_of("namespace: ");
            push_str(&mut rv, n.as_str());
            let rs = string_of(rv.as_slice());
            replace_all(yaml, "namespace: default", rs.as_str())
        },
        None => String::from_str(yaml),
    }
}

/// What a key does in the create-resource screen.
#[derive(Clone, Copy, PartialEq, Eq, Structural, Debug)]
pub enum CreateKey {
    Nothing,
    /// Leave the screen.
    Close,
    /// Open the template at this index in the editor.
    Choose(usize),
    /// Apply the edited YAML.
    Apply,
    /// Back to the template list (the screen takes the focus back).
    BackToTemplates,
}

/// The step of a key on the create-resource screen: the template index,
/// whether keyboard navigation is shown, and the action.
pub open spec fn create_key_spec(state: CreateState, selected: usize, count: usize, e: crate::hotkeys::KeyEvent) -> (usize, bool, CreateKey) {
    let down = e.key is ArrowDown || (e.key matches crate::hotkeys::KeyName::Character(c) && c@ == "j"@);
    let up = e.key is ArrowUp || (e.key matches crate::hotkeys::KeyName::Character(c) && c@ == "k"@);
    match state {
        CreateState::SelectTemplate => if e.key is Escape {
            (selected, false, CreateKey::Close)
        } else if down {
            (if selected < count - 1 { (selected + 1) as usize } else { selected }, true, CreateKey::Nothing)
        } else if up {
            (if selected > 0 { (selected - 1) as usize } else { selected }, true, CreateKey::Nothing)
        } else if e.key is Enter {
            (selected, false, if selected < count { CreateKey::Choose(selected) } else { CreateKey::Nothing })
        } else {
            (selected, false, CreateKey::Nothing)
        },
        CreateState::EditYaml(_) => if (e.ctrl || e.meta) && (e.key matches crate::hotkeys::KeyName::Character(c) && c@ == "s"@) {
            (selected, false, CreateKey::Apply)
        } else if e.key is Escape {
            (selected, false, CreateKey::BackToTemplates)
        } else {
            (selected, false, CreateKey::Nothing)
        },
        CreateState::Success(_) | CreateState::Error(_) => (selected, false, if e.key is Escape || e.key is Enter { CreateKey::Close } else { CreateKey::Nothing }),
        CreateState::Applying => (selected, false, CreateKey::Nothing),
    }
}

fn key_char_is(e: &crate::hotkeys::KeyEvent, lit: &str) -> (r: bool)
    ensures
        r == (e.key matches crate::hotkeys::KeyName::Character(c) && c@ == lit@),
{
    match &e.key {
        crate::hotkeys::KeyName::Character(c) => crate::text::eq_str(chars_of(c.as_str()).as_slice(), lit),
        _ => false,
    }
}

/// Handles a key on the create-resource screen (`count` templates, at
/// least one); the second component says whether keyboard navigation is
/// now shown (it is left as it was where `false`).
pub fn create_key(state: &CreateState, selected: usize, count: usize, e: &crate::hotkeys::KeyEvent) -> (r: (usize, bool, CreateKey))
    requires
        count > 0,
    ensures
        r == create_key_spec(*state, selected, count, *e),
{
    let down = matches!(e.key, crate::hotkeys::KeyName::ArrowDown) || key_char_is(e, "j");
    let up = matches!(e.key, crate::hotkeys::KeyName::ArrowUp) || key_char_is(e, "k");
    match state {
        CreateState::SelectTemplate => {
            if matches!(e.key, crate::hotkeys::KeyName::Escape) {
                (selected, false, CreateKey::Close)
            } else if down {
                (if selected < count - 1 { selected + 1 } else { selected }, true, CreateKey::Nothing)
            } else if up {
                (if selected > 0 { selected - 1 } else { selected }, true, CreateKey::Nothing)
            } else if matches!(e.key, crate::hotkeys::KeyName::Enter) {
                (selected, false, if selected < count { CreateKey::Choose(selected) } else { CreateKey::Nothing })
            } else {
                (selected, false, CreateKey::Nothing)
            }
        },
        CreateState::EditYaml(_) => {
            if (e.ctrl || e.meta) && key_char_is(e, "s") {
                (selected, false, CreateKey::Apply)
            } else if matches!(e.key, crate::hotkeys::KeyName::Escape) {
                (selected, false, CreateKey::BackToTemplates)
            } else {
                (selected, false, CreateKey::Nothing)
            }
        },
        CreateState::Success(_) | CreateState::Error(_) => {
            let close = matches!(e.key, crate::hotkeys::KeyName::Escape) || matches!(e.key, crate::hotkeys::KeyName::Enter);
            (selected, false, if close { CreateKey::Close } else { CreateKey::Nothing })
        },
        CreateState::Applying => (selected, false, CreateKey::Nothing),
    }
}

// ---------------------------------------------------------------------------
// Dialogs
// ---------------------------------------------------------------------------

/// Escape, or `Ctrl+[` (what VT100 terminals send for it).
pub open spec fn escape_spec(e: crate::hotkeys::KeyEvent) -> bool {
    e.key is Escape || (e.ctrl && (e.key matches crate::hotkeys::KeyName::Character(c) && c@ == "["@))
}

/// Whether a key press means Escape.
pub fn is_escape(e: &crate::hotkeys::KeyEvent) -> (r: bool)
    ensures
        r == escape_spec(*e),
{
    matches!(e.key, crate::hotkeys::KeyName::Escape) || (e.ctrl && key_char_is(e, "["))
}

/// What a key does in a confirmation dialog.
#[derive(Clone, Copy, PartialEq, Eq, Structural, Debug)]
pub enum DialogKey {
    Nothing,
    Confirm,
    Cancel,
}

/// A key in a confirmation dialog whose choice is `None` (nothing chosen
/// yet), `Some(true)` (confirm) or `Some(false)` (cancel): Escape cancels;
/// Enter carries out the choice; Left, Right and Tab switch it, starting
/// with cancel.
pub open spec fn dialog_key_spec(choice: Option<bool>, e: crate::hotkeys::KeyEvent) -> (Option<bool>, DialogKey) {
    if escape_spec(e) {
        (choice, DialogKey::Cancel)
    } else {
        match e.key {
            crate::hotkeys::KeyName::Enter => (choice, match choice {
                Some(true) => DialogKey::Confirm,
                Some(false) => DialogKey::Cancel,
                None => DialogKey::Nothing,
            }),
            crate::hotkeys::KeyName::ArrowLeft | crate::hotkeys::KeyName::ArrowRight | crate::hotkeys::KeyName::Tab => (
                Some(match choice {
                    Some(b) => !b,
                    None => false,
                }),
                DialogKey::Nothing,
            ),
            _ => (choice, DialogKey::Nothing),
        }
    }
}

/// Handles a key in the delete or action confirmation dialog.
pub fn dialog_key(choice: Option<bool>, e: &crate::hotkeys::KeyEvent) -> (r: (Option<bool>, DialogKey))
    ensures
        r == dialog_key_spec(choice, *e),
{
    if is_escape(e) {
        return (choice, DialogKey::Cancel);
    }
    match e.key {
        crate::hotkeys::KeyName::Enter => (choice, match choice {
            Some(true) => DialogKey::Confirm,
            Some(false) => DialogKey::Cancel,
            None => DialogKey::Nothing,
        }),
        crate::hotkeys::KeyName::ArrowLeft | crate::hotkeys::KeyName::ArrowRight | crate::hotkeys::KeyName::Tab => (
            Some(match choice {
                Some(b) => !b,
                None => false,
            }),
            DialogKey::Nothing,
        ),
        _ => (choice, DialogKey::Nothing),
    }
}

/// Switching twice comes back to the same choice once one is made, and
/// Enter only confirms what was chosen.
pub proof fn lemma_dialog_switch(choice: bool, e: crate::hotkeys::KeyEvent, enter: crate::hotkeys::KeyEvent)
    requires
        e.key is Tab,
        !e.ctrl,
        enter.key is Enter,
    ensures
        dialog_key_spec(dialog_key_spec(Some(choice), e).0, e).0 == Some(choice),
        dialog_key_spec(Some(choice), enter).1 == (if choice { DialogKey::Confirm } else { DialogKey::Cancel }),
        dialog_key_spec(None, enter).1 == DialogKey::Nothing,
{
}

/// The delete dialog's action name and button class.
pub fn delete_labels(force: bool) -> (r: (&'static str, &'static str))
    ensures
        r.0@ == (if force { "Force Delete (Kill)"@ } else { "Delete"@ }),
        r.1@ == (if force { "delete-btn danger"@ } else { "delete-btn"@ }),
{
    if force { ("Force Delete (Kill)", "delete-btn danger") } else { ("Delete", "delete-btn") }
}

/// The part of the port-forward dialog with the keyboard focus.
#[derive(Clone, Copy, PartialEq, Eq, Structural, Debug)]
pub enum PortFocus {
    LocalPort,
    PortList,
}

/// The port-forward dialog: the selected container port, the local port
/// text, the focus and the error shown.
pub struct PortDialog {
    pub selected: usize,
    pub local_text: String,
    pub focus: PortFocus,
    pub error: Option<&'static str>,
}

/// The dialog as plain values.
pub struct PortDialogView {
    pub selected: usize,
    pub local_text: Seq<char>,
    pub focus: PortFocus,
    pub error: Option<Seq<char>>,
}

impl PortDialog {
    pub open spec fn view(&self) -> PortDialogView {
        PortDialogView {
            selected: self.selected,
            local_text: self.local_text@,
            focus: self.focus,
            error: match self.error {
                Some(e) => Some(e@),
                None => None,
            },
        }
    }
}

/// What a key does in the port-forward dialog.
#[derive(Clone, Copy, PartialEq, Eq, Structural, Debug)]
pub enum PortKey {
    Nothing,
    Cancel,
    /// Forward this local port to this remote port.
    Forward(u16, u16),
}

/// The dialog as it opens: the first container port (else 8080) as the
/// local port.
pub open spec fn port_dialog_start(ports: Seq<u16>) -> PortDialogView {
    PortDialogView {
        selected: 0,
        local_text: if ports.len() > 0 { nat_dec(ports[0] as nat) } else { "8080"@ },
        focus: PortFocus::LocalPort,
        error: None,
    }
}

/// Opens the port-forward dialog.
pub fn open_port_dialog(ports: &Vec<u16>) -> (r: PortDialog)
    ensures
        r.view() == port_dialog_start(ports@),
{
    let text = if ports.len() > 0 {
        string_of(crate::num::u64_dec(ports[0] as u64).as_slice())
    } else {
        String::from_str("8080")
    };
    PortDialog { selected: 0, local_text: text, focus: PortFocus::LocalPort, error: None }
}

/// A key in the port-forward dialog: Escape cancels; Enter forwards the
/// typed local port to the selected container port (or reports why not);
/// Up and Down move through the container ports, copying the port into
/// the local field, and between the field and the list; Tab switches
/// between them.
pub open spec fn port_key_spec(d: PortDialogView, ports: Seq<u16>, e: crate::hotkeys::KeyEvent) -> (PortDialogView, PortKey) {
    let n = ports.len();
    if escape_spec(e) {
        (d, PortKey::Cancel)
    } else {
        match e.key {
            crate::hotkeys::KeyName::Enter => match crate::num::parse_unsigned(d.local_text, u16::MAX as nat) {
                None => (PortDialogView { error: Some("Invalid port number"@), ..d }, PortKey::Nothing),
                Some(l) => if l == 0 {
                    (PortDialogView { error: Some("Port must be greater than 0"@), ..d }, PortKey::Nothing)
                } else {
                    (d, PortKey::Forward(l as u16, if n == 0 || d.selected >= n { l as u16 } else { ports[d.selected as int] }))
                },
            },
            crate::hotkeys::KeyName::ArrowUp => if d.focus == PortFocus::PortList && n > 0 {
                if d.selected > 0 {
                    let k = (d.selected - 1) as usize;
                    (PortDialogView {
                        selected: k,
                        local_text: if k < n { nat_dec(ports[k as int] as nat) } else { d.local_text },
                        ..d
                    }, PortKey::Nothing)
                } else {
                    (d, PortKey::Nothing)
                }
            } else if d.focus == PortFocus::LocalPort && n > 0 {
                (PortDialogView { focus: PortFocus::PortList, ..d }, PortKey::Nothing)
            } else {
                (d, PortKey::Nothing)
            },
            crate::hotkeys::KeyName::ArrowDown => if d.focus == PortFocus::PortList && n > 0 {
                if d.selected < n - 1 {
                    let k = (d.selected + 1) as usize;
                    (PortDialogView { selected: k, local_text: nat_dec(ports[k as int] as nat), ..d }, PortKey::Nothing)
                } else {
                    (PortDialogView { focus: PortFocus::LocalPort, ..d }, PortKey::Nothing)
                }
            } else {
                (d, PortKey::Nothing)
            },
            crate::hotkeys::KeyName::Tab => (
                PortDialogView { focus: if d.focus == PortFocus::LocalPort && n > 0 { PortFocus::PortList } else { PortFocus::LocalPort }, ..d },
                PortKey::Nothing,
            ),
            _ => (d, PortKey::Nothing),
        }
    }
}

/// Handles a key in the port-forward dialog.
pub fn port_dialog_key(d: &PortDialog, ports: &Vec<u16>, e: &crate::hotkeys::KeyEvent) -> (r: (PortDialog, PortKey))
    ensures
        r.0.view() == port_key_spec(d.view(), ports@, *e).0,
        r.1 == port_key_spec(d.view(), ports@, *e).1,
{
    let n = ports.len();
    let mut out = PortDialog {
        selected: d.selected,
        local_text: string_of(chars_of(d.local_text.as_str()).as_slice()),
        focus: d.focus,
        error: d.error,
    };
    if is_escape(e) {
        return (out, PortKey::Cancel);
    }
    match e.key {
        crate::hotkeys::KeyName::Enter => {
            match port_forward_ports(d.local_text.as_str(), ports, d.selected) {
                Ok((l, rp)) => (out, PortKey::Forward(l, rp)),
                Err(msg) => {
                    out.error = Some(msg);
                    (out, PortKey::Nothing)
                },
            }
        },
        crate::hotkeys::KeyName::ArrowUp => {
            if d.focus == PortFocus::PortList && n > 0 {
                if d.selected > 0 {
                    let k = d.selected - 1;
                    out.selected = k;
                    if k < n {
                        out.local_text = string_of(crate::num::u64_dec(ports[k] as u64).as_slice());
                    }
                }
            } else if d.focus == PortFocus::LocalPort && n > 0 {
                out.focus = PortFocus::PortList;
            }
            (out, PortKey::Nothing)
        },
        crate::hotkeys::KeyName::ArrowDown => {
            if d.focus == PortFocus::PortList && n > 0 {
                if d.selected < n - 1 {
                    let k = d.selected + 1;
                    out.selected = k;
                    out.local_text = string_of(crate::num::u64_dec(ports[k] as u64).as_slice());
                } else {
                    out.focus = PortFocus::LocalPort;
                }
            }
            (out, PortKey::Nothing)
        },
        crate::hotkeys::KeyName::Tab => {
            out.focus = if d.focus == PortFocus::LocalPort && n > 0 { PortFocus::PortList } else { PortFocus::LocalPort };
            (out, PortKey::Nothing)
        },
        _ => (out, PortKey::Nothing),
    }
}

// ---------------------------------------------------------------------------
// Manifests and logs
// ---------------------------------------------------------------------------

/// `str::split(p)` for a text separator.
#[verifier::opaque]
pub open spec fn split_text(s: Seq<char>, p: Seq<char>) -> Seq<Seq<char>>
    decreases s.len(),
{
    match crate::connector::first_occurrence(s, p) {
        Some(i) => if p.len() > 0 && 0 <= i && i + p.len() <= s.len() {
            seq![s.take(i)] + split_text(s.skip(i + p.len()), p)
        } else {
            seq![s]
        },
        None => seq![s],
    }
}

/// `str::trim_start_matches(p)`.
pub open spec fn strip_start(s: Seq<char>, p: Seq<char>) -> Seq<char> {
    crate::nodes::strip_start(s, p)
}

/// The number of non-empty pieces.
pub open spec fn nonempty_docs(pieces: Seq<Seq<char>>) -> nat
    decreases pieces.len(),
{
    if pieces.len() == 0 {
        0
    } else {
        nonempty_docs(pieces.drop_last()) + if crate::text::trim(strip_start(pieces.last(), "---"@)).len() > 0 { 1nat } else { 0nat }
    }
}

/// The number of YAML documents in a manifest: the pieces between
/// `\n---` separators that hold more than a marker and whitespace, at
/// least one.
pub open spec fn yaml_docs(yaml: Seq<char>) -> nat {
    let n = nonempty_docs(split_text(yaml, "\n---"@));
    if n > 1 { n } else { 1 }
}

proof fn lemma_split_text_step(s: Seq<char>, p: Seq<char>, i: int)
    requires
        crate::connector::first_occurrence(s, p) == Some(i),
        p.len() > 0,
        0 <= i,
        i + p.len() <= s.len(),
    ensures
        split_text(s, p) == seq![s.take(i)] + split_text(s.skip(i + p.len()), p),
{
    reveal(split_text);
}

proof fn lemma_split_text_last(s: Seq<char>, p: Seq<char>)
    requires
        crate::connector::first_occurrence(s, p) is None,
    ensures
        split_text(s, p) == seq![s],
{
    reveal(split_text);
}

proof fn lemma_docs_push(done: Seq<Seq<char>>, piece: Seq<char>)
    ensures
        nonempty_docs(done.push(piece)) == nonempty_docs(done)
            + if crate::text::trim(strip_start(piece, "---"@)).len() > 0 { 1nat } else { 0nat },
{
    assert(done.push(piece).drop_last() =~= done);
}

proof fn lemma_docs_bound(done: Seq<Seq<char>>)
    ensures
        nonempty_docs(done) <= done.len(),
    decreases done.len(),
{
    if done.len() > 0 {
        lemma_docs_bound(done.drop_last());
    }
}

/// Counts the documents of a YAML manifest.
pub fn count_yaml_documents(yaml: &str) -> (r: usize)
    ensures
        r == yaml_docs(yaml@),
{
    let s = chars_of(yaml);
    let sep = chars_of("\n---");
    proof {
        reveal_strlit("\n---");
    }
    let mut rest = crate::json::slice_chars(s.as_slice(), 0, s.len());
    let slen = s.len();
    let mut count: usize = 0;
    let ghost mut done: Seq<Seq<char>> = Seq::empty();
    assert(rest@ =~= s@);
    assert(done + split_text(rest@, sep@) =~= split_text(s@, sep@));
    loop
        invariant
            sep@ == "\n---"@,
            sep@.len() == 4,
            s@ == yaml@,
            s@.len() == slen,
            split_text(s@, sep@) == done + split_text(rest@, sep@),
            count == nonempty_docs(done),
            4 * done.len() + rest@.len() <= s@.len(),
        decreases rest@.len(),
    {
        let body_piece;
        let next;
        match crate::connector::find_seq(rest.as_slice(), sep.as_slice()) {
            Some(i) => {
                let p = crate::json::slice_chars(rest.as_slice(), 0, i);
                let rl = rest.len();
                assert(i + 4 <= rl);
                let n = crate::json::slice_chars(rest.as_slice(), i + 4, rl);
                proof {
                    assert(p@ =~= rest@.take(i as int));
                    assert(n@ =~= rest@.skip(i + 4));
                    lemma_split_text_step(rest@, sep@, i as int);
                }
                body_piece = p;
                next = Some(n);
            },
            None => {
                proof {
                    lemma_split_text_last(rest@, sep@);
                }
                body_piece = crate::json::slice_chars(rest.as_slice(), 0, rest.len());
                next = None;
            },
        }
        let body = crate::nodes::strip_start_exec(body_piece.as_slice(), "---");
        let t = crate::text::trim_exec(body.as_slice());
        proof {
            lemma_docs_push(done, body_piece@);
            lemma_docs_bound(done);
        }
        if t.len() > 0 {
            count = count + 1;
        }
        match next {
            Some(n) => {
                proof {
                    let old_done = done;
                    done = done.push(body_piece@);
                    assert(old_done + (seq![body_piece@] + split_text(n@, sep@)) =~= done + split_text(n@, sep@));
                }
                rest = n;
            },
            None => {
                proof {
                    assert(body_piece@ =~= rest@);
                    let old_done = done;
                    done = done.push(body_piece@);
                    assert(old_done + seq![rest@] =~= done);
                }
                return if count > 1 { count } else { 1 };
            },
        }
    }
}

/// A manifest file read for applying: its preview with the document count.
pub fn manifest_preview(path: String, content: String) -> (r: ApplyManifestState)
    ensures
        r matches ApplyManifestState::Preview { yaml, source, doc_count }
            && yaml@ == content@ && source@ == path@ && doc_count == yaml_docs(content@),
{
    let doc_count = count_yaml_documents(content.as_str());
    ApplyManifestState::Preview { yaml: content, source: path, doc_count }
}

/// `kind/name` of each applied object.
pub fn applied_labels(results: &Vec<(String, String)>) -> (r: Vec<String>)
    ensures
        r@.len() == results@.len(),
        forall|i: int| 0 <= i < r@.len() ==> #[trigger] r@[i]@ == results@[i].0@ + "/"@ + results@[i].1@,
{
    let mut out: Vec<String> = Vec::new();
    let mut i: usize = 0;
    while i < results.len()
        invariant
            i <= results@.len(),
            out@.len() == i,
            forall|j: int| 0 <= j < i ==> #[trigger] out@[j]@ == results@[j].0@ + "/"@ + results@[j].1@,
        decreases results@.len() - i,
    {
        let mut v = chars_of(results[i].0.as_str());
        push_str(&mut v, "/");
        push_str(&mut v, results[i].1.as_str());
        out.push(string_of(v.as_slice()));
        i += 1;
    }
    out
}

/// What a key does on the apply-manifest screen.
#[derive(Clone, Copy, PartialEq, Eq, Structural, Debug)]
pub enum ApplyKey {
    Nothing,
    Apply,
    Close,
}

/// A key on the apply-manifest screen, given whether it is the configured
/// confirm binding: in the preview the binding applies and Escape
/// closes; on the results or an error Escape or Enter closes; while
/// loading or applying Escape closes.
pub open spec fn apply_key_spec(state: ApplyManifestState, confirm: bool, e: crate::hotkeys::KeyEvent) -> ApplyKey {
    match state {
        ApplyManifestState::Preview { .. } => if confirm {
            ApplyKey::Apply
        } else if escape_spec(e) {
            ApplyKey::Close
        } else {
            ApplyKey::Nothing
        },
        ApplyManifestState::Results { .. } | ApplyManifestState::Error(_) => if escape_spec(e) || e.key is Enter {
            ApplyKey::Close
        } else {
            ApplyKey::Nothing
        },
        _ => if escape_spec(e) { ApplyKey::Close } else { ApplyKey::Nothing },
    }
}

/// Handles a key on the apply-manifest screen.
pub fn apply_key(state: &ApplyManifestState, confirm: bool, e: &crate::hotkeys::KeyEvent) -> (r: ApplyKey)
    ensures
        r == apply_key_spec(*state, confirm, *e),
{
    match state {
        ApplyManifestState::Preview { .. } => if confirm {
            ApplyKey::Apply
        } else if is_escape(e) {
            ApplyKey::Close
        } else {
            ApplyKey::Nothing
        },
        ApplyManifestState::Results { .. } | ApplyManifestState::Error(_) => {
            if is_escape(e) || matches!(e.key, crate::hotkeys::KeyName::Enter) {
                ApplyKey::Close
            } else {
                ApplyKey::Nothing
            }
        },
        _ => if is_escape(e) { ApplyKey::Close } else { ApplyKey::Nothing },
    }
}

/// The style class of a log line: errors, then warnings, then info.
pub open spec fn log_class(line: Seq<char>) -> Seq<char> {
    if contains_seq(line, "ERROR"@) || contains_seq(line, "error"@) || contains_seq(line, "Error"@) || contains_seq(line, "FATAL"@) {
        "log-line log-error"@
    } else if contains_seq(line, "WARN"@) || contains_seq(line, "warn"@) || contains_seq(line, "Warning"@) {
        "log-line log-warn"@
    } else if contains_seq(line, "INFO"@) || contains_seq(line, "info"@) {
        "log-line log-info"@
    } else {
        "log-line"@
    }
}

/// The style class of a log line.
pub fn get_log_line_class(line: &str) -> (r: &'static str)
    ensures
        r@ == log_class(line@),
{
    let l = chars_of(line);
    let ls = l.as_slice();
    if crate::text::contains_str(ls, "ERROR") || crate::text::contains_str(ls, "error") || crate::text::contains_str(ls, "Error")
        || crate::text::contains_str(ls, "FATAL") {
        "log-line log-error"
    } else if crate::text::contains_str(ls, "WARN") || crate::text::contains_str(ls, "warn") || crate::text::contains_str(ls, "Warning") {
        "log-line log-warn"
    } else if crate::text::contains_str(ls, "INFO") || crate::text::contains_str(ls, "info") {
        "log-line log-info"
    } else {
        "log-line"
    }
}

/// Lines the log viewer keeps.
pub const MAX_LOG_LINES: usize = 10000;

/// Appends a streamed log line, keeping only the last `MAX_LOG_LINES`.
pub fn push_log_line(lines: &mut Vec<String>, line: String)
    requires
        old(lines)@.len() <= MAX_LOG_LINES,
    ensures
        final(lines)@ == (if old(lines)@.len() + 1 > MAX_LOG_LINES {
            old(lines)@.push(line).skip(1)
        } else {
            old(lines)@.push(line)
        }),
        final(lines)@.len() <= MAX_LOG_LINES,
{
    lines.push(line);
    if lines.len() > MAX_LOG_LINES {
        lines.remove(0);
        assert(lines@ =~= old(lines)@.push(line).skip(1));
    }
}

/// The last `MAX_LOG_LINES` lines of a fetched log.
pub fn keep_last_lines(lines: Vec<String>) -> (r: Vec<String>)
    ensures
        r@ == lines@.skip(if lines@.len() > MAX_LOG_LINES { lines@.len() - MAX_LOG_LINES } else { 0 }),
{
    let start: usize = if lines.len() > MAX_LOG_LINES { lines.len() - MAX_LOG_LINES } else { 0 };
    let mut out: Vec<String> = Vec::new();
    let mut v = lines;
    let ghost all = v@;
    let mut i: usize = 0;
    let n = v.len();
    let mut rev: Vec<String> = Vec::new();
    while v.len() > start
        invariant
            start <= n,
            n == all.len(),
            v@ == all.take(v@.len() as int),
            start <= v@.len() <= n,
            rev@.len() == n - v@.len(),
            forall|j: int| 0 <= j < rev@.len() ==> #[trigger] rev@[j] == all[n - 1 - j],
        decreases v@.len(),
    {
        let x = v.pop().unwrap();
        rev.push(x);
        assert(v@ =~= all.take(v@.len() as int));
    }
    while rev.len() > 0
        invariant
            start <= n,
            n == all.len(),
            forall|j: int| 0 <= j < rev@.len() ==> #[trigger] rev@[j] == all[n - 1 - j],
            rev@.len() <= n - start,
            out@ == all.subrange(start as int, (n - rev@.len()) as int),
        decreases rev@.len(),
    {
        let x = rev.pop().unwrap();
        out.push(x);
        assert(out@ =~= all.subrange(start as int, (n - rev@.len()) as int));
    }
    assert(out@ =~= all.skip(start as int));
    out
}

/// `str::lines`: the text split at `\n`, a `\r` before the `\n` removed,
/// no line after a final `\n`.
pub open spec fn text_lines(s: Seq<char>) -> Seq<Seq<char>>
    decreases s.len(),
{
    if s.len() == 0 {
        Seq::empty()
    } else {
        match crate::text::first_index_of(s, '\n') {
            Some(i) => if 0 <= i < s.len() {
                let line = s.take(i);
                let line = if line.len() > 0 && line.last() == '\r' { line.drop_last() } else { line };
                seq![line] + text_lines(s.skip(i + 1))
            } else {
                seq![s]
            },
            None => seq![s],
        }
    }
}

/// Texts of a list of strings.
pub open spec fn lines_view(v: Seq<String>) -> Seq<Seq<char>> {
    Seq::new(v.len(), |i: int| v[i]@)
}

/// Splits a text into lines as `str::lines` does.
pub fn split_lines(text: &str) -> (r: Vec<String>)
    ensures
        lines_view(r@) == text_lines(text@),
{
    let t = chars_of(text);
    let mut rest = crate::json::slice_chars(t.as_slice(), 0, t.len());
    let mut out: Vec<String> = Vec::new();
    assert(rest@ =~= text@);
    assert(lines_view(out@) =~= Seq::<Seq<char>>::empty());
    while rest.len() > 0
        invariant
            text_lines(text@) == lines_view(out@) + text_lines(rest@),
        decreases rest@.len(),
    {
        match crate::text::find_char(rest.as_slice(), '\n') {
            Some(i) => {
                let rl = rest.len();
                let mut line = crate::json::slice_chars(rest.as_slice(), 0, i);
                assert(line@ =~= rest@.take(i as int));
                if line.len() > 0 && line[line.len() - 1] == '\r' {
                    line.pop();
                }
                let next = crate::json::slice_chars(rest.as_slice(), i + 1, rl);
                assert(next@ =~= rest@.skip(i + 1));
                let ghost before = lines_view(out@);
                out.push(string_of(line.as_slice()));
                assert(lines_view(out@) =~= before.push(line@));
                assert(before + (seq![line@] + text_lines(next@)) =~= lines_view(out@) + text_lines(next@));
                rest = next;
            },
            None => {
                let ghost before = lines_view(out@);
                out.push(string_of(rest.as_slice()));
                assert(lines_view(out@) =~= before.push(rest@));
                assert(before + seq![rest@] =~= lines_view(out@));
                return out;
            },
        }
    }
    assert(text_lines(rest@) =~= Seq::<Seq<char>>::empty());
    assert(lines_view(out@) + Seq::<Seq<char>>::empty() =~= lines_view(out@));
    out
}

/// The lines of a fetched log that the viewer keeps: the last
/// `MAX_LOG_LINES`.
pub fn fetched_log_lines(text: &str) -> (r: Vec<String>)
    ensures
        lines_view(r@) == ({
            let all = text_lines(text@);
            all.skip(if all.len() > MAX_LOG_LINES { all.len() - MAX_LOG_LINES } else { 0 })
        }),
{
    let all = split_lines(text);
    let ghost n = all@.len();
    let kept = keep_last_lines(all);
    proof {
        let start: int = if n > MAX_LOG_LINES { n - MAX_LOG_LINES } else { 0 };
        assert(lines_view(kept@) =~= text_lines(text@).skip(start));
    }
    kept
}

/// A streamed log line: kept (and the view scrolled) while following, unless
/// empty. Returns whether the view scrolls.
pub fn stream_log_line(lines: &mut Vec<String>, line: String, following: bool) -> (scroll: bool)
    requires
        old(lines)@.len() <= MAX_LOG_LINES,
    ensures
        scroll == (following && line@.len() > 0),
        scroll ==> final(lines)@ == (if old(lines)@.len() + 1 > MAX_LOG_LINES {
            old(lines)@.push(line).skip(1)
        } else {
            old(lines)@.push(line)
        }),
        !scroll ==> final(lines)@ == old(lines)@,
        final(lines)@.len() <= MAX_LOG_LINES,
{
    if following && !line.as_str().is_empty() {
        push_log_line(lines, line);
        true
    } else {
        false
    }
}

/// The log viewer's switches.
#[derive(Clone, Copy, PartialEq, Eq, Structural, Debug)]
pub struct LogFlags {
    pub wrap: bool,
    pub following: bool,
    pub timestamps: bool,
}

/// What a key does in the log viewer.
#[derive(Clone, Copy, PartialEq, Eq, Structural, Debug)]
pub enum LogKey {
    Nothing,
    Back,
    /// Scroll to the newest line.
    ScrollToEnd,
}

/// A key in the log viewer: Escape goes back; `w`, `f` and `t` switch
/// wrapping, following (scrolling to the end when it starts) and
/// timestamps; Up and Page Up stop following.
pub open spec fn log_key_spec(f: LogFlags, e: crate::hotkeys::KeyEvent) -> (LogFlags, LogKey) {
    if escape_spec(e) {
        (f, LogKey::Back)
    } else {
        match e.key {
            crate::hotkeys::KeyName::Character(c) if !e.ctrl && !e.meta => if c@ == "w"@ {
                (LogFlags { wrap: !f.wrap, ..f }, LogKey::Nothing)
            } else if c@ == "f"@ {
                (LogFlags { following: !f.following, ..f }, if !f.following { LogKey::ScrollToEnd } else { LogKey::Nothing })
            } else if c@ == "t"@ {
                (LogFlags { timestamps: !f.timestamps, ..f }, LogKey::Nothing)
            } else {
                (f, LogKey::Nothing)
            },
            crate::hotkeys::KeyName::ArrowUp | crate::hotkeys::KeyName::PageUp => (LogFlags { following: false, ..f }, LogKey::Nothing),
            _ => (f, LogKey::Nothing),
        }
    }
}

/// Handles a key in the log viewer.
pub fn log_key(f: LogFlags, e: &crate::hotkeys::KeyEvent) -> (r: (LogFlags, LogKey))
    ensures
        r == log_key_spec(f, *e),
{
    if is_escape(e) {
        return (f, LogKey::Back);
    }
    match &e.key {
        crate::hotkeys::KeyName::Character(c) if !e.ctrl && !e.meta => {
            let cs = chars_of(c.as_str());
            if crate::text::eq_str(cs.as_slice(), "w") {
                (LogFlags { wrap: !f.wrap, ..f }, LogKey::Nothing)
            } else if crate::text::eq_str(cs.as_slice(), "f") {
                (LogFlags { following: !f.following, ..f }, if !f.following { LogKey::ScrollToEnd } else { LogKey::Nothing })
            } else if crate::text::eq_str(cs.as_slice(), "t") {
                (LogFlags { timestamps: !f.timestamps, ..f }, LogKey::Nothing)
            } else {
                (f, LogKey::Nothing)
            }
        },
        crate::hotkeys::KeyName::ArrowUp | crate::hotkeys::KeyName::PageUp => (LogFlags { following: false, ..f }, LogKey::Nothing),
        _ => (f, LogKey::Nothing),
    }
}

/// The cluster connection indicator: its class and title.
pub fn connection_dot(is_connected: Option<bool>) -> (r: (&'static str, &'static str))
    ensures
        r.0@ == (match is_connected {
            Some(true) => "status-dot connected"@,
            Some(false) => "status-dot disconnected"@,
            None => "status-dot pending"@,
        }),
        r.1@ == (match is_connected {
            Some(true) => "Connected"@,
            Some(false) => "Disconnected"@,
            None => "Connecting..."@,
        }),
{
    match is_connected {
        Some(true) => ("status-dot connected", "Connected"),
        Some(false) => ("status-dot disconnected", "Disconnected"),
        None => ("status-dot pending", "Connecting..."),
    }
}

// ---------------------------------------------------------------------------
// Cluster overview
// ---------------------------------------------------------------------------

/// The resource views the overview cards lead to, in order.
pub open spec fn card_targets() -> Seq<Seq<char>> {
    seq!["nodes"@, "pods"@, "deployments"@, "services"@]
}

/// The number of navigable overview cards.
pub fn get_overview_card_count() -> (r: usize)
    ensures
        r == card_targets().len(),
{
    4
}

/// The view an overview card leads to.
pub fn get_overview_card_target(index: usize) -> (r: Option<&'static str>)
    ensures
        match r {
            Some(t) => index < card_targets().len() && t@ == card_targets()[index as int],
            None => index >= card_targets().len(),
        },
{
    if index == 0 {
        Some("nodes")
    } else if index == 1 {
        Some("pods")
    } else if index == 2 {
        Some("deployments")
    } else if index == 3 {
        Some("services")
    } else {
        None
    }
}

/// Every card index below the count leads to a view, and no two cards
/// lead to the same one.
pub proof fn lemma_cards_navigable(i: int, j: int)
    requires
        0 <= i < card_targets().len(),
        0 <= j < card_targets().len(),
        i != j,
    ensures
        card_targets()[i].len() > 0,
        card_targets()[i] != card_targets()[j],
{
    reveal_strlit("nodes");
    reveal_strlit("pods");
    reveal_strlit("deployments");
    reveal_strlit("services");
    assert("nodes"@[0] != "pods"@[0]);
    assert("nodes"@[0] != "deployments"@[0]);
    assert("nodes"@[0] != "services"@[0]);
    assert("pods"@[0] != "deployments"@[0]);
    assert("pods"@[0] != "services"@[0]);
    assert("deployments"@[0] != "services"@[0]);
}

/// Number of nodes with a `Ready` condition that is `True`.
pub open spec fn ready_nodes(nodes: Seq<Option<Vec<Condition>>>) -> nat
    decreases nodes.len(),
{
    if nodes.len() == 0 {
        0
    } else {
        ready_nodes(nodes.drop_last()) + if nodes.last() matches Some(cs) && crate::resources::has_condition(cs@, "Ready"@, "True"@) { 1nat } else { 0nat }
    }
}

/// Ready and not ready nodes, given each node's conditions.
pub fn count_node_status(nodes: &[Option<Vec<Condition>>]) -> (r: (usize, usize))
    ensures
        r.0 == ready_nodes(nodes@),
        r.0 + r.1 == nodes@.len(),
{
    let mut ready: usize = 0;
    let mut not_ready: usize = 0;
    let mut i: usize = 0;
    assert(nodes@.take(0) =~= Seq::<Option<Vec<Condition>>>::empty());
    while i < nodes.len()
        invariant
            i <= nodes@.len(),
            ready == ready_nodes(nodes@.take(i as int)),
            ready + not_ready == i,
        decreases nodes@.len() - i,
    {
        assert(nodes@.take(i + 1).drop_last() =~= nodes@.take(i as int));
        let is_ready = match &nodes[i] {
            Some(cs) => crate::resources::has_condition_exec(cs, "Ready", "True"),
            None => false,
        };
        if is_ready {
            ready += 1;
        } else {
            not_ready += 1;
        }
        i += 1;
    }
    assert(nodes@.take(i as int) =~= nodes@);
    (ready, not_ready)
}

/// Number of pods whose phase is `p`.
pub open spec fn phase_count(phases: Seq<Option<String>>, p: Seq<char>) -> nat
    decreases phases.len(),
{
    if phases.len() == 0 {
        0
    } else {
        phase_count(phases.drop_last(), p) + if or_text(phases.last(), "Unknown"@) == p { 1nat } else { 0nat }
    }
}

/// Running, pending and failed pods, given each pod's phase.
pub fn count_pod_status(phases: &[Option<String>]) -> (r: (usize, usize, usize))
    ensures
        r.0 == phase_count(phases@, "Running"@),
        r.1 == phase_count(phases@, "Pending"@),
        r.2 == phase_count(phases@, "Failed"@),
{
    let mut running: usize = 0;
    let mut pending: usize = 0;
    let mut failed: usize = 0;
    let mut i: usize = 0;
    assert(phases@.take(0) =~= Seq::<Option<String>>::empty());
    proof {
        reveal_strlit("Running");
        reveal_strlit("Pending");
        reveal_strlit("Failed");
    }
    while i < phases.len()
        invariant
            i <= phases@.len(),
            running == phase_count(phases@.take(i as int), "Running"@),
            pending == phase_count(phases@.take(i as int), "Pending"@),
            failed == phase_count(phases@.take(i as int), "Failed"@),
            running + pending + failed <= i,
            "Running"@.len() == 7,
            "Pending"@.len() == 7,
            "Failed"@.len() == 6,
            "Running"@[0] == 'R',
            "Pending"@[0] == 'P',
        decreases phases@.len() - i,
    {
        assert(phases@.take(i + 1).drop_last() =~= phases@.take(i as int));
        let p = chars_of(or_text_exec(&phases[i], "Unknown").as_str());
        if crate::text::eq_str(p.as_slice(), "Running") {
            running += 1;
        } else if crate::text::eq_str(p.as_slice(), "Pending") {
            pending += 1;
        } else if crate::text::eq_str(p.as_slice(), "Failed") {
            failed += 1;
        }
        i += 1;
    }
    assert(phases@.take(i as int) =~= phases@);
    (running, pending, failed)
}

/// Whether an event type is `Warning`.
pub open spec fn is_warning(t: Option<String>) -> bool {
    opt_view(t) == Some("Warning"@)
}

/// The indices, in order, of the warning events among the first `n`.
pub open spec fn warnings_before(types: Seq<Option<String>>, n: int) -> Seq<int>
    decreases n,
{
    if n <= 0 {
        Seq::empty()
    } else {
        let p = warnings_before(types, n - 1);
        if is_warning(types[n - 1]) { p.push(n - 1) } else { p }
    }
}

/// The indices of the first ten warning events (all of them where there
/// are fewer).
pub open spec fn first_warnings(types: Seq<Option<String>>) -> Seq<int> {
    let w = warnings_before(types, types.len() as int);
    if w.len() <= 10 { w } else { w.take(10) }
}

/// Indices as integers.
pub open spec fn usize_ints(v: Seq<usize>) -> Seq<int> {
    Seq::new(v.len(), |k: int| v[k] as int)
}

/// The warnings among the first `i` events come first among those of the
/// first `j`.
proof fn lemma_warnings_prefix(types: Seq<Option<String>>, i: int, j: int)
    requires
        0 <= i <= j,
    ensures
        warnings_before(types, i).len() <= warnings_before(types, j).len(),
        warnings_before(types, j).take(warnings_before(types, i).len() as int) == warnings_before(types, i),
    decreases j - i,
{
    if i < j {
        lemma_warnings_prefix(types, i, j - 1);
        let a = warnings_before(types, i);
        let b = warnings_before(types, j - 1);
        if is_warning(types[j - 1]) {
            assert(b.push(j - 1).take(a.len() as int) =~= b.take(a.len() as int));
        }
    } else {
        assert(warnings_before(types, i).take(warnings_before(types, i).len() as int) =~= warnings_before(types, i));
    }
}

/// The warning events of the overview: the first ten of type `Warning`,
/// by their index.
pub fn warning_event_indices(types: &[Option<String>]) -> (r: Vec<usize>)
    ensures
        usize_ints(r@) == first_warnings(types@),
{
    let mut out: Vec<usize> = Vec::new();
    let mut i: usize = 0;
    while i < types.len() && out.len() < 10
        invariant
            i <= types@.len(),
            out@.len() <= 10,
            usize_ints(out@) == warnings_before(types@, i as int),
        decreases types@.len() - i,
    {
        let w = match &types[i] {
            Some(t) => crate::text::eq_str(chars_of(t.as_str()).as_slice(), "Warning"),
            None => false,
        };
        let ghost before = usize_ints(out@);
        if w {
            out.push(i);
            assert(usize_ints(out@) =~= before.push(i as int));
        }
        i += 1;
    }
    proof {
        let n = types@.len() as int;
        lemma_warnings_prefix(types@, i as int, n);
        let w = warnings_before(types@, n);
        if i < n {
            assert(out@.len() == 10);
            assert(w.take(10) == usize_ints(out@));
        }
    }
    out
}

/// The age of an event by its last time, else its event time.
pub fn get_event_age(last_timestamp: Option<i64>, event_time: Option<i64>) -> (r: String)
    ensures
        last_timestamp is None && event_time is None ==> r@ == "-"@,
        last_timestamp matches Some(t) ==> exists|now: int|
            r@ == age_text(#[trigger] since(now, t as int)),
        last_timestamp is None ==> (event_time matches Some(t) ==> exists|now: int|
            r@ == age_text(#[trigger] since(now, t as int))),
{
    let t = match last_timestamp {
        Some(t) => Some(t),
        None => event_time,
    };
    format_age(t)
}

// ---------------------------------------------------------------------------
// Job drill-down
// ---------------------------------------------------------------------------

/// A job as the cron job drill-down reads it.
pub struct JobRun {
    pub conditions: Option<Vec<Condition>>,
    pub active: Option<i32>,
    pub succeeded: Option<i32>,
    pub failed: Option<i32>,
    pub completions: Option<i32>,
    pub has_status: bool,
    /// Start and completion times, Unix seconds.
    pub start_time: Option<i64>,
    pub completion_time: Option<i64>,
    pub created: Option<i64>,
}

/// The first condition that is `Complete` or `Failed` and `True`.
pub open spec fn final_condition(cs: Seq<Condition>) -> Option<bool>
    decreases cs.len(),
{
    if cs.len() == 0 {
        None
    } else if cs[0].type_@ == "Complete"@ && cs[0].status@ == "True"@ {
        Some(true)
    } else if cs[0].type_@ == "Failed"@ && cs[0].status@ == "True"@ {
        Some(false)
    } else {
        final_condition(cs.drop_first())
    }
}

/// The status of a job and its style class.
pub open spec fn job_status_spec(j: JobRun) -> (Seq<char>, Seq<char>) {
    let fc = if j.has_status {
        match j.conditions {
            Some(cs) => final_condition(cs@),
            None => None,
        }
    } else {
        None
    };
    let active = if j.has_status { crate::resources::or_int(j.active, 0) } else { 0 };
    let succeeded = if j.has_status { crate::resources::or_int(j.succeeded, 0) } else { 0 };
    let failed = if j.has_status { crate::resources::or_int(j.failed, 0) } else { 0 };
    match fc {
        Some(true) => ("Complete"@, "status-success"@),
        Some(false) => ("Failed"@, "status-error"@),
        None => if active > 0 {
            ("Running"@, "status-success"@)
        } else if succeeded > 0 && failed == 0 {
            ("Complete"@, "status-success"@)
        } else if failed > 0 {
            ("Failed"@, "status-error"@)
        } else {
            ("Pending"@, "status-warning"@)
        },
    }
}

/// A job's style class follows its status: `Failed` is an error,
/// `Pending` a warning, `Complete` and `Running` a success; and these four
/// are the only statuses.
pub proof fn lemma_job_status_class(j: JobRun)
    ensures
        ({
            let (st, class) = job_status_spec(j);
            &&& st == "Complete"@ || st == "Running"@ || st == "Failed"@ || st == "Pending"@
            &&& st == "Failed"@ ==> class == "status-error"@
            &&& st == "Pending"@ ==> class == "status-warning"@
            &&& (st == "Complete"@ || st == "Running"@) ==> class == "status-success"@
        }),
{
    reveal_strlit("Complete");
    reveal_strlit("Running");
    reveal_strlit("Failed");
    reveal_strlit("Pending");
    assert("Running"@ != "Pending"@) by {
        assert("Running"@[0] != "Pending"@[0]);
    }
    assert("Complete"@.len() == 8 && "Failed"@.len() == 6 && "Pending"@.len() == 7 && "Running"@.len() == 7);
    assert("Complete"@ != "Failed"@ && "Complete"@ != "Pending"@ && "Complete"@ != "Running"@);
    assert("Failed"@ != "Pending"@ && "Failed"@ != "Running"@);
}

/// The status of a job and its style class.
pub fn get_job_status(j: &JobRun) -> (r: (&'static str, &'static str))
    ensures
        r.0@ == job_status_spec(*j).0,
        r.1@ == job_status_spec(*j).1,
{
    if j.has_status {
        if let Some(cs) = &j.conditions {
            let mut i: usize = 0;
            assert(cs@.skip(0) =~= cs@);
            while i < cs.len()
                invariant
                    i <= cs@.len(),
                    j.has_status,
                    j.conditions == Some(*cs),
                    final_condition(cs@) == final_condition(cs@.skip(i as int)),
                decreases cs@.len() - i,
            {
                assert(cs@.skip(i as int).drop_first() =~= cs@.skip(i + 1));
                assert(cs@.skip(i as int)[0] == cs@[i as int]);
                let t = chars_of(cs[i].type_.as_str());
                let s = chars_of(cs[i].status.as_str());
                let is_true = crate::text::eq_str(s.as_slice(), "True");
                if crate::text::eq_str(t.as_slice(), "Complete") && is_true {
                    return ("Complete", "status-success");
                }
                if crate::text::eq_str(t.as_slice(), "Failed") && is_true {
                    return ("Failed", "status-error");
                }
                i += 1;
            }
        }
    }
    let active: i32 = if j.has_status { match j.active { Some(v) => v, None => 0 } } else { 0 };
    let succeeded: i32 = if j.has_status { match j.succeeded { Some(v) => v, None => 0 } } else { 0 };
    let failed: i32 = if j.has_status { match j.failed { Some(v) => v, None => 0 } } else { 0 };
    if active > 0 {
        ("Running", "status-success")
    } else if succeeded > 0 && failed == 0 {
        ("Complete", "status-success")
    } else if failed > 0 {
        ("Failed", "status-error")
    } else {
        ("Pending", "status-warning")
    }
}

/// `succeeded/desired` of a job.
pub fn get_completions(j: &JobRun) -> (r: String)
    ensures
        r@ == crate::resources::ratio_text(
            if j.has_status { crate::resources::or_int(j.succeeded, 0) } else { 0 },
            crate::resources::or_int(j.completions, 1),
        ),
{
    let desired: i32 = match j.completions {
        Some(c) => c,
        None => 1,
    };
    let succeeded: i32 = if j.has_status { match j.succeeded { Some(v) => v, None => 0 } } else { 0 };
    crate::resources::ratio_label(succeeded as i64, desired as i64)
}

/// A duration of `secs` seconds: seconds, minutes and seconds, or hours
/// and minutes.
pub open spec fn duration_text(secs: int) -> Seq<char> {
    if secs < 60 {
        int_dec(secs) + "s"@
    } else if secs < 3600 {
        nat_dec((secs / 60) as nat) + "m"@ + nat_dec((secs % 60) as nat) + "s"@
    } else {
        nat_dec((secs / 3600) as nat) + "h"@ + nat_dec(((secs % 3600) / 60) as nat) + "m"@
    }
}

/// Renders a duration in seconds.
pub fn duration_label(secs: i64) -> (r: String)
    ensures
        r@ == duration_text(secs as int),
{
    let mut v: Vec<char> = Vec::new();
    if secs < 60 {
        push_all(&mut v, crate::num::i64_dec(secs).as_slice());
        push_str(&mut v, "s");
    } else if secs < 3600 {
        push_all(&mut v, crate::num::u64_dec((secs / 60) as u64).as_slice());
        push_str(&mut v, "m");
        push_all(&mut v, crate::num::u64_dec((secs % 60) as u64).as_slice());
        push_str(&mut v, "s");
    } else {
        push_all(&mut v, crate::num::u64_dec((secs / 3600) as u64).as_slice());
        push_str(&mut v, "h");
        push_all(&mut v, crate::num::u64_dec(((secs % 3600) / 60) as u64).as_slice());
        push_str(&mut v, "m");
    }
    string_of(v.as_slice())
}

/// Seconds from `a` to `b`, kept within `i64`.
pub open spec fn span(a: int, b: int) -> int {
    if b - a > i64::MAX { i64::MAX as int } else if b - a < i64::MIN { i64::MIN as int } else { b - a }
}

/// How long a job ran: from start to completion, or from start to now
/// while it runs; `-` without a start.
pub fn get_duration(j: &JobRun) -> (r: String)
    ensures
        match (j.start_time, j.completion_time) {
            (Some(s), Some(e)) if j.has_status => r@ == duration_text(span(s as int, e as int)),
            (Some(s), None) if j.has_status => exists|now: int|
                r@ == duration_text(#[trigger] since(now, s as int)),
            _ => r@ == "-"@,
        },
{
    if !j.has_status {
        return String::from_str("-");
    }
    match (j.start_time, j.completion_time) {
        (Some(s), Some(e)) => {
            let d: i128 = e as i128 - s as i128;
            let secs: i64 = if d > i64::MAX as i128 { i64::MAX } else if d < i64::MIN as i128 { i64::MIN } else { d as i64 };
            duration_label(secs)
        },
        (Some(s), None) => duration_label(crate::resources::seconds_since(s)),
        _ => String::from_str("-"),
    }
}

/// A job's age: seconds, minutes, hours or days.
pub open spec fn job_age_text(secs: int) -> Seq<char> {
    if secs < 60 {
        int_dec(secs) + "s"@
    } else if secs < 3600 {
        nat_dec((secs / 60) as nat) + "m"@
    } else if secs < 86400 {
        nat_dec((secs / 3600) as nat) + "h"@
    } else {
        nat_dec((secs / 86400) as nat) + "d"@
    }
}

/// Renders a job's age.
pub fn job_age_label(secs: i64) -> (r: String)
    ensures
        r@ == job_age_text(secs as int),
{
    let mut v: Vec<char> = Vec::new();
    if secs < 60 {
        push_all(&mut v, crate::num::i64_dec(secs).as_slice());
        push_str(&mut v, "s");
    } else if secs < 3600 {
        push_all(&mut v, crate::num::u64_dec((secs / 60) as u64).as_slice());
        push_str(&mut v, "m");
    } else if secs < 86400 {
        push_all(&mut v, crate::num::u64_dec((secs / 3600) as u64).as_slice());
        push_str(&mut v, "h");
    } else {
        push_all(&mut v, crate::num::u64_dec((secs / 86400) as u64).as_slice());
        push_str(&mut v, "d");
    }
    string_of(v.as_slice())
}

/// The age of a job by the clock, or `-`.
pub fn get_age(j: &JobRun) -> (r: String)
    ensures
        j.created is None ==> r@ == "-"@,
        j.created matches Some(c) ==> exists|now: int|
            r@ == job_age_text(#[trigger] since(now, c as int)),
{
    match j.created {
        Some(c) => job_age_label(crate::resources::seconds_since(c)),
        None => String::from_str("-"),
    }
}

// ---------------------------------------------------------------------------
// Container drill-down
// ---------------------------------------------------------------------------

/// The state of a container: running, waiting (with its reason, if any),
/// terminated (with its reason, if any).
pub struct ContainerStateInfo {
    pub running: bool,
    pub waiting: Option<Option<String>>,
    pub terminated: Option<Option<String>>,
}

/// The status of a container and its style class.
pub open spec fn container_status_spec(st: Option<Option<ContainerStateInfo>>) -> (Seq<char>, Seq<char>) {
    match st {
        Some(Some(s)) => if s.running {
            ("Running"@, "status-success"@)
        } else {
            match s.waiting {
                Some(w) => (or_text(w, "Waiting"@), "status-warning"@),
                None => match s.terminated {
                    Some(t) => (or_text(t, "Terminated"@), "status-error"@),
                    None => ("Unknown"@, "status-unknown"@),
                },
            }
        },
        _ => ("Unknown"@, "status-unknown"@),
    }
}

/// The status of a container (given its status, and its state where the
/// status has one) and its style class.
pub fn get_container_status(status: &Option<Option<ContainerStateInfo>>) -> (r: (String, &'static str))
    ensures
        r.0@ == container_status_spec(*status).0,
        r.1@ == container_status_spec(*status).1,
{
    match status {
        Some(Some(s)) => if s.running {
            (String::from_str("Running"), "status-success")
        } else {
            match &s.waiting {
                Some(w) => (or_text_exec(w, "Waiting"), "status-warning"),
                None => match &s.terminated {
                    Some(t) => (or_text_exec(t, "Terminated"), "status-error"),
                    None => (String::from_str("Unknown"), "status-unknown"),
                },
            }
        },
        _ => (String::from_str("Unknown"), "status-unknown"),
    }
}

/// A container's status as the pod reports it.
pub struct ContainerStatusRow {
    pub name: String,
    pub ready: bool,
    pub restart_count: i32,
    pub state: Option<ContainerStateInfo>,
}

/// The first status reported for the container `name`.
pub open spec fn status_of(statuses: Seq<ContainerStatusRow>, name: Seq<char>) -> Option<ContainerStatusRow>
    decreases statuses.len(),
{
    if statuses.len() == 0 {
        None
    } else if statuses[0].name@ == name {
        Some(statuses[0])
    } else {
        status_of(statuses.drop_first(), name)
    }
}

/// A container row: status text and class, ready, restarts (not ready and
/// no restarts where the pod reports nothing for the container).
pub open spec fn container_row_spec(name: Seq<char>, statuses: Seq<ContainerStatusRow>) -> (Seq<char>, Seq<char>, bool, i32) {
    match status_of(statuses, name) {
        Some(st) => (container_status_spec(Some(st.state)).0, container_status_spec(Some(st.state)).1, st.ready, st.restart_count),
        None => (container_status_spec(None).0, container_status_spec(None).1, false, 0),
    }
}

/// The status columns of the container `name` in the drill-down.
pub fn container_row(name: &str, statuses: &Vec<ContainerStatusRow>) -> (r: (String, &'static str, bool, i32))
    ensures
        r.0@ == container_row_spec(name@, statuses@).0,
        r.1@ == container_row_spec(name@, statuses@).1,
        r.2 == container_row_spec(name@, statuses@).2,
        r.3 == container_row_spec(name@, statuses@).3,
{
    let want = chars_of(name);
    let mut i: usize = 0;
    assert(statuses@.skip(0) =~= statuses@);
    while i < statuses.len()
        invariant
            i <= statuses@.len(),
            want@ == name@,
            status_of(statuses@, name@) == status_of(statuses@.skip(i as int), name@),
        decreases statuses@.len() - i,
    {
        assert(statuses@.skip(i as int).drop_first() =~= statuses@.skip(i + 1));
        assert(statuses@.skip(i as int)[0] == statuses@[i as int]);
        let st = &statuses[i];
        if crate::text::chars_eq(chars_of(st.name.as_str()).as_slice(), want.as_slice()) {
            let state: Option<Option<ContainerStateInfo>> = Some(match &st.state {
                Some(x) => Some(ContainerStateInfo {
                    running: x.running,
                    waiting: match &x.waiting {
                        Some(w) => Some(crate::resources::opt_clone(w)),
                        None => None,
                    },
                    terminated: match &x.terminated {
                        Some(t) => Some(crate::resources::opt_clone(t)),
                        None => None,
                    },
                }),
                None => None,
            });
            let (t, c) = get_container_status(&state);
            return (t, c, st.ready, st.restart_count);
        }
        i += 1;
    }
    let (t, c) = get_container_status(&None);
    (t, c, false, 0)
}

/// An image name for the table: its last 47 bytes after `...` when longer
/// than 50 bytes.
pub open spec fn short_image_spec(image: Seq<char>) -> Seq<char> {
    let n = crate::terminal::blen(image);
    if n > 50 {
        "..."@ + image.skip(crate::terminal::char_idx(image, n - 47)->Some_0)
    } else {
        image
    }
}

/// Shortens an image name; the cut must fall on a character boundary,
/// since the text is sliced there by byte.
pub fn short_image(image: &str) -> (r: String)
    requires
        crate::terminal::blen(image@) > 50 ==> crate::terminal::char_idx(image@, crate::terminal::blen(image@) - 47) is Some,
    ensures
        r@ == short_image_spec(image@),
{
    let t = chars_of(image);
    let n = crate::terminal::blen_exec(t.as_slice());
    if n > 50 {
        match crate::terminal::char_idx_exec(t.as_slice(), n - 47) {
            Some(k) => {
                proof {
                    crate::terminal::lemma_char_idx_le(t@, (n - 47) as int);
                }
                let mut v = chars_of("...");
                let tail = crate::json::slice_chars(t.as_slice(), k, t.len());
                assert(tail@ =~= t@.skip(k as int));
                push_all(&mut v, tail.as_slice());
                string_of(v.as_slice())
            },
            None => String::new(),
        }
    } else {
        String::from_str(image)
    }
}

/// A container's CPU and memory requests and limits, where set.
pub struct ContainerResources {
    pub cpu_request: Option<String>,
    pub cpu_limit: Option<String>,
    pub memory_request: Option<String>,
    pub memory_limit: Option<String>,
}

/// CPU request, CPU limit, memory request and memory limit, `-` where
/// unset.
pub fn get_resource_info(c: &ContainerResources) -> (r: (String, String, String, String))
    ensures
        r.0@ == or_text(c.cpu_request, "-"@),
        r.1@ == or_text(c.cpu_limit, "-"@),
        r.2@ == or_text(c.memory_request, "-"@),
        r.3@ == or_text(c.memory_limit, "-"@),
{
    (
        or_text_exec(&c.cpu_request, "-"),
        or_text_exec(&c.cpu_limit, "-"),
        or_text_exec(&c.memory_request, "-"),
        or_text_exec(&c.memory_limit, "-"),
    )
}

// ---------------------------------------------------------------------------
// Command palette
// ---------------------------------------------------------------------------

/// The commands whose lowercase label contains the lowercase search text,
/// by index, in order.
pub fn filter_commands(commands: &Vec<crate::hotkeys::Command>, search: &str) -> (r: Vec<usize>)
    ensures
        forall|k: int| 0 <= k < r@.len() ==> r@[k] < commands@.len()
            && contains_seq(lowercase(commands@[r@[k] as int].label@), lowercase(search@)),
        forall|k: int, l: int| 0 <= k < l < r@.len() ==> r@[k] < r@[l],
        forall|j: int| 0 <= j < commands@.len() && contains_seq(lowercase(commands@[j].label@), lowercase(search@))
            ==> r@.contains(j as usize),
{
    let needle = chars_of(to_lowercase(search).as_str());
    let mut out: Vec<usize> = Vec::new();
    let mut i: usize = 0;
    while i < commands.len()
        invariant
            i <= commands@.len(),
            needle@ == lowercase(search@),
            forall|k: int| 0 <= k < out@.len() ==> out@[k] < i
                && contains_seq(lowercase(commands@[out@[k] as int].label@), lowercase(search@)),
            forall|k: int, l: int| 0 <= k < l < out@.len() ==> out@[k] < out@[l],
            forall|j: int| 0 <= j < i && contains_seq(lowercase(commands@[j].label@), lowercase(search@))
                ==> out@.contains(j as usize),
        decreases commands@.len() - i,
    {
        let label = chars_of(to_lowercase(commands[i].label.as_str()).as_str());
        if crate::text::contains_exec(label.as_slice(), needle.as_slice()) {
            let ghost before = out@;
            out.push(i);
            proof {
                assert forall|j: int| 0 <= j < i + 1 && contains_seq(lowercase(commands@[j].label@), lowercase(search@))
                    implies out@.contains(j as usize) by {
                    if j == i {
                        assert(out@[out@.len() - 1] == i);
                    } else {
                        let k = choose|k: int| 0 <= k < before.len() && before[k] == j as usize;
                        assert(out@[k] == j as usize);
                    }
                }
            }
        }
        i += 1;
    }
    out
}

/// The selection after Down: the next entry, wrapping to the first.
pub fn select_next(cur: usize, count: usize) -> (r: usize)
    requires
        count == 0 || cur < usize::MAX,
    ensures
        count == 0 ==> r == cur,
        count > 0 ==> r == (cur + 1) % (count as int),
{
    if count > 0 {
        (cur + 1) % count
    } else {
        cur
    }
}

/// The selection after Up: the previous entry, wrapping to the last.
pub fn select_prev(cur: usize, count: usize) -> (r: usize)
    ensures
        count == 0 ==> r == cur,
        count > 0 ==> r == (if cur == 0 { count - 1 } else { cur - 1 }),
{
    if count > 0 {
        if cur == 0 { count - 1 } else { cur - 1 }
    } else {
        cur
    }
}

/// What a key does in the command palette.
#[derive(Clone, Copy, PartialEq, Eq, Structural, Debug)]
pub enum PaletteKey {
    Nothing,
    Close,
    /// Run the command at this index of the full list, and close.
    Run(usize),
}

/// A key in the command palette, given the selection and the commands
/// the search shows (by index): Down and Up move with wrap-around, Enter
/// runs the selected command, Escape closes.
pub open spec fn palette_key_spec(cur: usize, shown: Seq<usize>, e: crate::hotkeys::KeyEvent) -> (usize, PaletteKey) {
    let n = shown.len();
    match e.key {
        crate::hotkeys::KeyName::ArrowDown => (if n > 0 { ((cur + 1) % (n as int)) as usize } else { cur }, PaletteKey::Nothing),
        crate::hotkeys::KeyName::ArrowUp => (if n > 0 { if cur == 0 { (n - 1) as usize } else { (cur - 1) as usize } } else { cur }, PaletteKey::Nothing),
        crate::hotkeys::KeyName::Enter => (cur, if cur < n { PaletteKey::Run(shown[cur as int]) } else { PaletteKey::Nothing }),
        crate::hotkeys::KeyName::Escape => (cur, PaletteKey::Close),
        _ => (cur, PaletteKey::Nothing),
    }
}

/// Handles a key in the command palette.
pub fn palette_key(cur: usize, shown: &Vec<usize>, e: &crate::hotkeys::KeyEvent) -> (r: (usize, PaletteKey))
    requires
        shown@.len() == 0 || cur < usize::MAX,
    ensures
        r == palette_key_spec(cur, shown@, *e),
{
    let n = shown.len();
    match e.key {
        crate::hotkeys::KeyName::ArrowDown => (select_next(cur, n), PaletteKey::Nothing),
        crate::hotkeys::KeyName::ArrowUp => (select_prev(cur, n), PaletteKey::Nothing),
        crate::hotkeys::KeyName::Enter => (cur, if cur < n { PaletteKey::Run(shown[cur]) } else { PaletteKey::Nothing }),
        crate::hotkeys::KeyName::Escape => (cur, PaletteKey::Close),
        _ => (cur, PaletteKey::Nothing),
    }
}

/// What a key does while a binding is being recorded.
pub enum RecordKey {
    /// Escape: stop recording, keep the binding.
    Cancel,
    /// Bind the action to this key text and stop recording.
    Bind(String),
    /// Keep recording (a bare modifier or a key that cannot be bound).
    Keep,
}

/// Handles a key while a binding is recorded.
pub fn record_key(e: &crate::hotkeys::KeyEvent) -> (r: RecordKey)
    ensures
        match r {
            RecordKey::Cancel => e.key is Escape,
            RecordKey::Bind(t) => !(e.key is Escape) && crate::hotkeys::hotkey_text(*e) == Some(t@),
            RecordKey::Keep => !(e.key is Escape) && crate::hotkeys::hotkey_text(*e) is None,
        },
{
    if matches!(e.key, crate::hotkeys::KeyName::Escape) {
        return RecordKey::Cancel;
    }
    match crate::hotkeys::hotkey_from_event(e) {
        Some(t) => RecordKey::Bind(t),
        None => RecordKey::Keep,
    }
}

/// Down then Up (and Up then Down) come back to the same entry, and the
/// selection stays within the list.
pub proof fn lemma_palette_wraps(cur: int, count: int)
    requires
        0 <= cur < count,
    ensures
        ({
            let n = (cur + 1) % count;
            &&& 0 <= n < count
            &&& (if n == 0 { count - 1 } else { n - 1 }) == cur
        }),
        ({
            let p = if cur == 0 { count - 1 } else { cur - 1 };
            &&& 0 <= p < count
            &&& (p + 1) % count == cur
        }),
{
    if cur + 1 == count {
        assert((cur + 1) % count == 0) by (nonlinear_arith)
            requires
                cur + 1 == count,
                count > 0,
        ;
    } else {
        assert((cur + 1) % count == cur + 1) by (nonlinear_arith)
            requires
                0 <= cur + 1 < count,
        ;
    }
    let p = if cur == 0 { count - 1 } else { cur - 1 };
    if cur == 0 {
        assert((p + 1) % count == 0) by (nonlinear_arith)
            requires
                p + 1 == count,
                count > 0,
        ;
    } else {
        assert((p + 1) % count == cur) by (nonlinear_arith)
            requires
                p + 1 == cur,
                0 <= cur < count,
        ;
    }
}

// ---------------------------------------------------------------------------
// Port forwarding
// ---------------------------------------------------------------------------

/// The ports to forward, from the local port text, the container's ports
/// and the selected one: the local port must be a number from 1 to 65535;
/// the remote port is the selected container port, else the local port.
pub fn port_forward_ports(local_text: &str, container_ports: &Vec<u16>, selected: usize) -> (r: Result<(u16, u16), &'static str>)
    ensures
        match r {
            Ok((l, rp)) => crate::num::parse_unsigned(local_text@, u16::MAX as nat) == Some(l as nat) && l > 0
                && rp == (if container_ports@.len() == 0 || selected >= container_ports@.len() { l } else { container_ports@[selected as int] }),
            Err(e) => (crate::num::parse_unsigned(local_text@, u16::MAX as nat) is None && e@ == "Invalid port number"@)
                || (crate::num::parse_unsigned(local_text@, u16::MAX as nat) == Some(0nat) && e@ == "Port must be greater than 0"@),
        },
{
    let digits = chars_of(local_text);
    let v = match crate::num::parse_u64(digits.as_slice()) {
        Some(v) => v,
        None => {
            return Err("Invalid port number");
        },
    };
    if v > 65535 {
        return Err("Invalid port number");
    }
    let local = v as u16;
    if local == 0 {
        return Err("Port must be greater than 0");
    }
    let remote = if container_ports.len() == 0 || selected >= container_ports.len() { local } else { container_ports[selected] };
    Ok((local, remote))
}

} // verus!
