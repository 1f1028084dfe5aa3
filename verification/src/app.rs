//! The GUI's state machine: its state, the messages it reacts to, and the
//! action each message asks of the event loop.
//!
//! Rendering, the file dialog, the background tasks and the scroll position
//! (which is measured in pixels) belong to the GUI shell; every decision the
//! GUI makes is taken here.
use vstd::prelude::*;

use crate::config::Config;
use crate::error::{Error, error_message};
use crate::text::{
    chars_of, concat, decimal, decimal_string, eq_str, join, join_strings, lines, lines_chars, string_of,
    string_views, views,
};
use crate::vpn::{
    ConfigKind, Connection, ConnectionState, ConnectionView, Snapshot, Toggled, VpnKind, connection_views,
};
use crate::vpn::wireguard::opt_view;

verus! {

/// Something the user or a background task told the GUI.
#[derive(Debug)]
pub enum Message {
    Refresh,
    SnapshotReady(Result<Snapshot, String>),
    SelectPrev,
    SelectNext,
    SelectIndex(usize),
    ActivateSelected,
    Disconnect,
    StartImport,
    FilesChosen(Vec<String>),
    OperationDone(Result<String, String>),
    StartDelete,
    ConfirmDelete,
    CancelDelete,
    ToggleQuitOnSwitch(bool),
    ActivationDone(Result<String, String>),
    Quit,
}

/// What the event loop is to do after a message.
#[derive(Debug)]
pub enum Action {
    /// Nothing.
    Nothing,
    /// Handle this message next.
    Dispatch(Message),
    /// Query every backend; the result comes back as `SnapshotReady`.
    LoadSnapshot,
    /// Scroll the list so that row `index` of `total` is visible.
    ScrollTo { index: usize, total: usize },
    /// Toggle this connection; the outcome comes back as `ActivationDone`.
    Toggle(Connection),
    /// Bring every connection down; the outcome comes back as `OperationDone`.
    DisconnectAll,
    /// Ask the user for config files; they come back as `FilesChosen`.
    PickFiles,
    /// Import these config files; the outcome comes back as `OperationDone`.
    Import(Vec<String>),
    /// Delete this connection; the outcome comes back as `OperationDone`.
    Delete(Connection),
    /// Store these preferences.
    SaveConfig(Config),
    /// Close the application.
    Exit,
}

/// The GUI's state.
pub struct App {
    snapshot: Snapshot,
    selected: usize,
    pending: Option<String>,
    status: Option<String>,
    config: Config,
    confirming_delete: Option<Connection>,
}

pub struct AppView {
    /// The connections listed, in order.
    pub connections: Seq<ConnectionView>,
    /// The selected row.
    pub selected: nat,
    /// What is in flight (`Some` while the GUI is busy).
    pub pending: Option<Seq<char>>,
    /// The status line.
    pub status: Option<Seq<char>>,
    pub quit_on_switch: bool,
    /// The connection the delete dialog asks about, while it is open.
    pub confirming_delete: Option<ConnectionView>,
}

pub open spec fn conn_opt_view(o: Option<Connection>) -> Option<ConnectionView> {
    match o {
        Some(c) => Some(c@),
        None => None,
    }
}

impl View for App {
    type V = AppView;

    closed spec fn view(&self) -> AppView {
        AppView {
            connections: self.snapshot@,
            selected: self.selected as nat,
            pending: opt_view(self.pending),
            status: opt_view(self.status),
            quit_on_switch: self.config.quit_on_switch,
            confirming_delete: conn_opt_view(self.confirming_delete),
        }
    }
}

/// What holds of every state the GUI can reach: the selection is a row of a
/// non-empty list, and the delete dialog never asks about Tailscale.
pub open spec fn app_invariant(v: AppView) -> bool {
    &&& v.connections.len() > 0 ==> v.selected < v.connections.len()
    &&& v.confirming_delete matches Some(c) ==> c.kind != VpnKind::Tailscale
}

/// Keep the selected row visible (only a list of two or more rows scrolls).
pub open spec fn scrolls_to_selection(v: AppView, act: Action) -> bool {
    if v.connections.len() <= 1 {
        act is Nothing
    } else {
        act matches Action::ScrollTo { index, total } && index == v.selected && total
            == v.connections.len()
    }
}

pub open spec fn error_text(err: Seq<char>) -> Seq<char> {
    "error: "@ + err
}

/// The status after an operation finished.
pub open spec fn outcome_text(r: Result<String, String>) -> Seq<char> {
    match r {
        Ok(msg) => msg@,
        Err(err) => error_text(err@),
    }
}

/// The pending note while files are imported.
pub open spec fn importing_text(paths: Seq<String>) -> Seq<char> {
    if paths.len() == 1 {
        "importing "@ + paths[0]@
    } else {
        "importing "@ + decimal(paths.len()) + " configs"@
    }
}

/// How the GUI reacts to `msg` in state `o`: the next state `f` and the
/// action `act`.
pub open spec fn update_relation(o: AppView, msg: Message, f: AppView, act: Action) -> bool {
    let n = o.connections.len();
    match msg {
        Message::Refresh => f == o && act is LoadSnapshot,
        Message::SnapshotReady(Ok(snap)) => {
            &&& f == AppView {
                connections: snap@,
                selected: if snap@.len() > 0 && o.selected >= snap@.len() {
                    (snap@.len() - 1) as nat
                } else {
                    o.selected
                },
                ..o
            }
            &&& act is Nothing
        },
        Message::SnapshotReady(Err(err)) => f == AppView { status: Some(error_text(err@)), ..o }
            && act is Nothing,
        Message::ToggleQuitOnSwitch(value) => f == AppView { quit_on_switch: value, ..o } && (
        act matches Action::SaveConfig(c) && c.quit_on_switch == value),
        Message::SelectPrev => {
            &&& f == AppView {
                selected: if o.selected > 0 {
                    (o.selected - 1) as nat
                } else {
                    0
                },
                ..o
            }
            &&& scrolls_to_selection(f, act)
        },
        Message::SelectNext => {
            &&& f == AppView {
                selected: if o.selected + 1 < n {
                    o.selected + 1
                } else {
                    o.selected
                },
                ..o
            }
            &&& scrolls_to_selection(f, act)
        },
        Message::SelectIndex(i) => {
            &&& f == AppView {
                selected: if i < n {
                    i as nat
                } else {
                    o.selected
                },
                ..o
            }
            &&& scrolls_to_selection(f, act)
        },
        Message::ActivateSelected => if o.confirming_delete is Some {
            f == o && act matches Action::Dispatch(Message::ConfirmDelete)
        } else if o.pending is Some || o.selected >= n {
            f == o && act is Nothing
        } else if o.connections[o.selected as int].state == ConnectionState::Unavailable {
            f == AppView {
                status: Some(o.connections[o.selected as int].name + " is unavailable"@),
                ..o
            } && act is Nothing
        } else {
            f == AppView { pending: Some(o.connections[o.selected as int].name), ..o } && (
            act matches Action::Toggle(c) && c@ == o.connections[o.selected as int])
        },
        Message::ActivationDone(result) => {
            &&& f == AppView { pending: None, status: Some(outcome_text(result)), ..o }
            &&& if result is Ok && o.quit_on_switch {
                act is Exit
            } else {
                act matches Action::Dispatch(Message::Refresh)
            }
        },
        Message::Disconnect => if o.pending is Some {
            f == o && act is Nothing
        } else {
            f == AppView { pending: Some(Seq::empty()), ..o } && act is DisconnectAll
        },
        Message::StartImport => f == o && if o.pending is Some {
            act is Nothing
        } else {
            act is PickFiles
        },
        Message::FilesChosen(paths) => if paths.len() == 0 {
            f == o && act is Nothing
        } else {
            f == AppView { pending: Some(importing_text(paths@)), ..o } && (act matches Action::Import(
                p,
            ) && p@ == paths@)
        },
        Message::OperationDone(result) => f == AppView {
            pending: None,
            status: Some(outcome_text(result)),
            ..o
        } && act matches Action::Dispatch(Message::Refresh),
        Message::StartDelete => if o.pending is Some || o.confirming_delete is Some || o.selected
            >= n {
            f == o && act is Nothing
        } else if o.connections[o.selected as int].kind == VpnKind::Tailscale {
            f == AppView {
                status: Some("Tailscale is not a NetworkManager connection"@),
                ..o
            } && act is Nothing
        } else {
            f == AppView { confirming_delete: Some(o.connections[o.selected as int]), ..o }
                && act is Nothing
        },
        Message::ConfirmDelete => match o.confirming_delete {
            None => f == o && act is Nothing,
            Some(target) => f == AppView {
                confirming_delete: None,
                pending: Some("deleting "@ + target.name),
                ..o
            } && (act matches Action::Delete(c) && c@ == target),
        },
        Message::CancelDelete => f == AppView { confirming_delete: None, ..o } && act is Nothing,
        Message::Quit => if o.confirming_delete is Some {
            f == AppView { confirming_delete: None, ..o } && act is Nothing
        } else {
            f == o && act is Exit
        },
    }
}

/// Whatever the message, the GUI stays in a state where the selection is a
/// row of a non-empty list and the delete dialog never asks about Tailscale.
pub proof fn law_update_keeps_invariant(o: AppView, msg: Message, f: AppView, act: Action)
    requires
        app_invariant(o),
        update_relation(o, msg, f, act),
    ensures
        app_invariant(f),
{
}

/// While an operation is in flight, starting another one (activate,
/// disconnect, import, delete) is ignored.
pub proof fn law_busy_refuses_new_operations(o: AppView, msg: Message, f: AppView, act: Action)
    requires
        update_relation(o, msg, f, act),
        o.pending is Some,
        o.confirming_delete is None,
        msg is ActivateSelected || msg is Disconnect || msg is StartImport || msg is StartDelete,
    ensures
        f == o,
        act is Nothing,
{
}

/// While the delete dialog is open it owns Enter (which confirms) and
/// Escape/`q` (which close the dialog instead of the application).
pub proof fn law_dialog_owns_enter_and_quit(o: AppView, msg: Message, f: AppView, act: Action)
    requires
        update_relation(o, msg, f, act),
        o.confirming_delete is Some,
    ensures
        msg is ActivateSelected ==> f == o && act matches Action::Dispatch(Message::ConfirmDelete),
        msg is Quit ==> f.confirming_delete is None && act is Nothing,
{
}

/// Tailscale is never deleted, an unavailable connection is never toggled,
/// every operation the GUI starts marks it busy, and every completion clears
/// that mark.
pub proof fn law_operations(o: AppView, msg: Message, f: AppView, act: Action)
    requires
        app_invariant(o),
        update_relation(o, msg, f, act),
    ensures
        act matches Action::Delete(c) ==> c.kind != VpnKind::Tailscale,
        act matches Action::Toggle(c) ==> c.state != ConnectionState::Unavailable,
        act is Toggle || act is DisconnectAll || act is Import || act is Delete ==> f.pending is Some,
        msg is ActivationDone || msg is OperationDone ==> f.pending is None,
{
}

impl App {
    #[verifier::type_invariant]
    spec fn wf(self) -> bool {
        &&& self.snapshot.connections.len() > 0 ==> self.selected < self.snapshot.connections.len()
        &&& self.confirming_delete matches Some(c) ==> c.kind != VpnKind::Tailscale
    }

    /// The initial state, with the stored preferences, and the first action:
    /// load the connections.
    pub fn new(config: Config) -> (r: (App, Action))
        ensures
            r.0@.connections.len() == 0,
            r.0@.selected == 0,
            r.0@.pending is None,
            r.0@.status is None,
            r.0@.quit_on_switch == config.quit_on_switch,
            r.0@.confirming_delete is None,
            app_invariant(r.0@),
            r.1 matches Action::Dispatch(Message::Refresh),
    {
        let app = App {
            snapshot: Snapshot { connections: Vec::new() },
            selected: 0,
            pending: None,
            status: None,
            config,
            confirming_delete: None,
        };
        assert(app@.connections =~= Seq::<ConnectionView>::empty());
        (app, Action::Dispatch(Message::Refresh))
    }

    /// The window title.
    pub fn title(&self) -> (t: String)
        ensures
            t@ == "byt"@,
    {
        "byt".to_owned()
    }

    pub fn connections(&self) -> (r: &Vec<Connection>)
        ensures
            connection_views(r@) == self@.connections,
    {
        &self.snapshot.connections
    }

    pub fn selected(&self) -> (r: usize)
        ensures
            r == self@.selected,
    {
        self.selected
    }

    pub fn pending(&self) -> (r: &Option<String>)
        ensures
            opt_view(*r) == self@.pending,
    {
        &self.pending
    }

    pub fn status(&self) -> (r: &Option<String>)
        ensures
            opt_view(*r) == self@.status,
    {
        &self.status
    }

    pub fn config(&self) -> (r: Config)
        ensures
            r.quit_on_switch == self@.quit_on_switch,
    {
        self.config
    }

    pub fn confirming_delete(&self) -> (r: &Option<Connection>)
        ensures
            conn_opt_view(*r) == self@.confirming_delete,
    {
        &self.confirming_delete
    }

    /// Keep the selected row in view.
    fn ensure_selected_visible(&self) -> (act: Action)
        ensures
            scrolls_to_selection(self@, act),
    {
        let total = self.snapshot.connections.len();
        if total <= 1 {
            Action::Nothing
        } else {
            Action::ScrollTo { index: self.selected, total }
        }
    }

    /// Reacts to `message`: updates the state and says what the event loop
    /// is to do next.
    pub fn update(&mut self, message: Message) -> (act: Action)
        ensures
            update_relation(old(self)@, message, final(self)@, act),
            app_invariant(final(self)@),
    {
        proof {
            use_type_invariant(&*self);
        }
        let ghost msg = message;
        let n = self.snapshot.connections.len();
        match message {
            Message::Refresh => Action::LoadSnapshot,
            Message::SnapshotReady(Ok(snap)) => {
                let len = snap.connections.len();
                let new_selected = if len > 0 && self.selected >= len {
                    len - 1
                } else {
                    self.selected
                };
                self.selected = 0;
                self.snapshot = snap;
                self.selected = new_selected;
                Action::Nothing
            },
            Message::SnapshotReady(Err(err)) => {
                self.status = Some(concat("error: ", err.as_str()));
                Action::Nothing
            },
            Message::ToggleQuitOnSwitch(value) => {
                self.config.quit_on_switch = value;
                Action::SaveConfig(self.config)
            },
            Message::SelectPrev => {
                if self.selected > 0 {
                    self.selected = self.selected - 1;
                }
                self.ensure_selected_visible()
            },
            Message::SelectNext => {
                let max = if n > 0 {
                    n - 1
                } else {
                    0
                };
                if self.selected < max {
                    self.selected = self.selected + 1;
                }
                self.ensure_selected_visible()
            },
            Message::SelectIndex(i) => {
                if i < n {
                    self.selected = i;
                }
                self.ensure_selected_visible()
            },
            Message::ActivateSelected => {
                // The delete dialog owns Enter while it is open, whatever is
                // selected underneath it.
                if self.confirming_delete.is_some() {
                    return Action::Dispatch(Message::ConfirmDelete);
                }
                if self.pending.is_some() || self.selected >= n {
                    return Action::Nothing;
                }
                let conn = &self.snapshot.connections[self.selected];
                assert(self@.connections[self.selected as int] == conn@);
                if conn.state == ConnectionState::Unavailable {
                    self.status = Some(concat(conn.name.as_str(), " is unavailable"));
                    return Action::Nothing;
                }
                let target = conn.duplicate();
                self.pending = Some(conn.name.clone());
                Action::Toggle(target)
            },
            Message::ActivationDone(result) => {
                self.pending = None;
                match result {
                    Ok(msg) => {
                        self.status = Some(msg);
                        if self.config.quit_on_switch {
                            Action::Exit
                        } else {
                            Action::Dispatch(Message::Refresh)
                        }
                    },
                    Err(err) => {
                        self.status = Some(concat("error: ", err.as_str()));
                        Action::Dispatch(Message::Refresh)
                    },
                }
            },
            Message::Disconnect => {
                if self.pending.is_some() {
                    return Action::Nothing;
                }
                self.pending = Some(String::new());
                Action::DisconnectAll
            },
            Message::StartImport => {
                if self.pending.is_some() {
                    return Action::Nothing;
                }
                Action::PickFiles
            },
            Message::FilesChosen(paths) => {
                if paths.len() == 0 {
                    return Action::Nothing;
                }
                let note = if paths.len() == 1 {
                    concat("importing ", paths[0].as_str())
                } else {
                    let count = decimal_string(paths.len() as u64);
                    let head = concat("importing ", count.as_str());
                    concat(head.as_str(), " configs")
                };
                self.pending = Some(note);
                Action::Import(paths)
            },
            Message::OperationDone(result) => {
                self.pending = None;
                match result {
                    Ok(msg) => self.status = Some(msg),
                    Err(err) => self.status = Some(concat("error: ", err.as_str())),
                }
                Action::Dispatch(Message::Refresh)
            },
            Message::StartDelete => {
                if self.pending.is_some() || self.confirming_delete.is_some() || self.selected
                    >= n {
                    return Action::Nothing;
                }
                let conn = self.snapshot.connections[self.selected].duplicate();
                assert(self@.connections[self.selected as int] == conn@);
                if conn.kind == VpnKind::Tailscale {
                    self.status = Some("Tailscale is not a NetworkManager connection".to_owned());
                    return Action::Nothing;
                }
                self.confirming_delete = Some(conn);
                Action::Nothing
            },
            Message::ConfirmDelete => {
                let target = match &self.confirming_delete {
                    Some(t) => t.duplicate(),
                    None => return Action::Nothing,
                };
                self.confirming_delete = None;
                self.pending = Some(concat("deleting ", target.name.as_str()));
                Action::Delete(target)
            },
            Message::CancelDelete => {
                self.confirming_delete = None;
                Action::Nothing
            },
            Message::Quit => {
                if self.confirming_delete.is_some() {
                    self.confirming_delete = None;
                    return Action::Nothing;
                }
                Action::Exit
            },
        }
    }
}


// ---------------------------------------------------------------------------
// What the window shows
// ---------------------------------------------------------------------------

pub open spec fn kind_label_text(k: VpnKind) -> Seq<char> {
    match k {
        VpnKind::Tailscale => "Tailscale"@,
        VpnKind::WireGuard => "WireGuard"@,
        VpnKind::OpenVpn => "OpenVPN"@,
    }
}

/// The backend's display name.
pub fn kind_label(k: VpnKind) -> (s: &'static str)
    ensures
        s@ == kind_label_text(k),
{
    match k {
        VpnKind::Tailscale => "Tailscale",
        VpnKind::WireGuard => "WireGuard",
        VpnKind::OpenVpn => "OpenVPN",
    }
}

pub open spec fn state_mark_text(s: ConnectionState) -> Seq<char> {
    match s {
        ConnectionState::Active => "●"@,
        ConnectionState::Inactive => "○"@,
        ConnectionState::Unavailable => "✕"@,
    }
}

/// The mark in front of a row.
pub fn state_mark(s: ConnectionState) -> (m: &'static str)
    ensures
        m@ == state_mark_text(s),
{
    match s {
        ConnectionState::Active => "●",
        ConnectionState::Inactive => "○",
        ConnectionState::Unavailable => "✕",
    }
}

pub open spec fn row_detail_text(c: ConnectionView) -> Seq<char> {
    match c.detail {
        Some(d) => kind_label_text(c.kind) + "  ·  "@ + d,
        None => kind_label_text(c.kind),
    }
}

/// The second line of a row: the backend, then the detail if any.
pub fn row_detail(c: &Connection) -> (s: String)
    ensures
        s@ == row_detail_text(c@),
{
    let label = kind_label(c.kind);
    match &c.detail {
        Some(d) => {
            let head = concat(label, "  ·  ");
            concat(head.as_str(), d.as_str())
        },
        None => label.to_owned(),
    }
}

/// What a row shows on its right.
#[derive(Debug, Clone, PartialEq, Eq)]
pub enum RowTrailing {
    /// An operation on this row is in flight.
    Busy,
    /// The digit that selects the row.
    Shortcut(String),
    Blank,
}

/// Rows 1 to 9 show their digit shortcut; a row with an operation in flight
/// shows that instead.
pub fn row_trailing(index: usize, pending: bool) -> (r: RowTrailing)
    ensures
        pending ==> r == RowTrailing::Busy,
        !pending && index < 9 ==> (r matches RowTrailing::Shortcut(d) && d@ == decimal((index + 1) as nat)),
        !pending && index >= 9 ==> r == RowTrailing::Blank,
{
    if pending {
        RowTrailing::Busy
    } else if index < 9 {
        RowTrailing::Shortcut(decimal_string((index + 1) as u64))
    } else {
        RowTrailing::Blank
    }
}

pub open spec fn delete_prompt_text(name: Seq<char>) -> Seq<char> {
    "\""@ + name + "\" will be removed permanently."@
}

/// The question the delete dialog asks.
pub fn delete_prompt(name: &str) -> (s: String)
    ensures
        s@ == delete_prompt_text(name@),
{
    let head = concat("\"", name);
    concat(head.as_str(), "\" will be removed permanently.")
}

pub open spec fn hint_text(v: AppView) -> Seq<char> {
    match v.status {
        Some(s) => s,
        None => if v.confirming_delete is Some {
            "y/Enter confirm • n/Esc cancel"@
        } else {
            "↑/↓ select • (x)disconnect • (i)mport • (d)elete • (r)efresh • (q)uit"@
        },
    }
}

impl App {
    /// The footer: the status line, or else the keys that apply.
    pub fn hint(&self) -> (s: String)
        ensures
            s@ == hint_text(self@),
    {
        match &self.status {
            Some(st) => st.clone(),
            None => if self.confirming_delete.is_some() {
                "y/Enter confirm • n/Esc cancel".to_owned()
            } else {
                "↑/↓ select • (x)disconnect • (i)mport • (d)elete • (r)efresh • (q)uit".to_owned()
            },
        }
    }

    /// The delete dialog is open.
    pub fn is_dialog_open(&self) -> (b: bool)
        ensures
            b == self@.confirming_delete is Some,
    {
        self.confirming_delete.is_some()
    }

    /// The action buttons are disabled: an operation is in flight or the
    /// delete dialog is open.
    pub fn is_busy(&self) -> (b: bool)
        ensures
            b == (self@.pending is Some || self@.confirming_delete is Some),
    {
        self.pending.is_some() || self.confirming_delete.is_some()
    }

    /// Row `index` is the one an operation is in flight for.
    pub fn is_row_pending(&self, index: usize) -> (b: bool)
        requires
            index < self@.connections.len(),
        ensures
            b == (self@.pending == Some(self@.connections[index as int].name)),
    {
        let c = &self.snapshot.connections[index];
        assert(self@.connections[index as int] == c@);
        match &self.pending {
            Some(p) => *p == c.name,
            None => false,
        }
    }
}

pub open spec fn first_line_text(s: Seq<char>) -> Seq<char> {
    if lines(s).len() > 0 {
        lines(s)[0]
    } else {
        s
    }
}

/// The first line of `s` (all of `s` if it has no line).
pub fn first_line(s: &str) -> (r: String)
    ensures
        r@ == first_line_text(s@),
{
    let chars = chars_of(s);
    let ls = lines_chars(&chars);
    if ls.len() > 0 {
        assert(views(ls@)[0] == ls@[0]@);
        string_of(&ls[0])
    } else {
        s.to_owned()
    }
}

// ---------------------------------------------------------------------------
// Keyboard
// ---------------------------------------------------------------------------

/// A key press, as far as the key bindings care.
#[derive(Debug, Clone, PartialEq, Eq)]
pub enum Key {
    ArrowUp,
    ArrowDown,
    Enter,
    Escape,
    /// A key that types text.
    Character(String),
    /// Any other key.
    Other,
}

/// The message a typed character is bound to.
pub open spec fn char_binding(c: Seq<char>, control: bool) -> Option<Message> {
    if c == "1"@ { Some(Message::SelectIndex(0)) }
    else if c == "2"@ { Some(Message::SelectIndex(1)) }
    else if c == "3"@ { Some(Message::SelectIndex(2)) }
    else if c == "4"@ { Some(Message::SelectIndex(3)) }
    else if c == "5"@ { Some(Message::SelectIndex(4)) }
    else if c == "6"@ { Some(Message::SelectIndex(5)) }
    else if c == "7"@ { Some(Message::SelectIndex(6)) }
    else if c == "8"@ { Some(Message::SelectIndex(7)) }
    else if c == "9"@ { Some(Message::SelectIndex(8)) }
    else if c == "k"@ { Some(Message::SelectPrev) }
    else if c == "j"@ { Some(Message::SelectNext) }
    else if c == "x"@ { Some(Message::Disconnect) }
    else if c == "i"@ { Some(Message::StartImport) }
    else if c == "r"@ { Some(Message::Refresh) }
    else if c == "d"@ { Some(Message::StartDelete) }
    else if c == "y"@ || c == "Y"@ { Some(Message::ConfirmDelete) }
    else if c == "n"@ || c == "N"@ { Some(Message::CancelDelete) }
    else if c == "q"@ { Some(Message::Quit) }
    else if c == "c"@ && control { Some(Message::Quit) }
    else { None }
}

/// The message a key press is bound to.
pub open spec fn key_binding(key: Key, control: bool) -> Option<Message> {
    match key {
        Key::ArrowUp => Some(Message::SelectPrev),
        Key::ArrowDown => Some(Message::SelectNext),
        Key::Enter => Some(Message::ActivateSelected),
        Key::Escape => Some(Message::Quit),
        Key::Character(c) => char_binding(c@, control),
        Key::Other => None,
    }
}

/// The key bindings: arrows or `k`/`j` move, `1`–`9` select a row, Enter
/// toggles, `x` disconnects, `i` imports, `d` deletes, `y`/`n` answer the
/// delete dialog, `r` refreshes, and `q`, Escape or Ctrl-C quit.
pub fn handle_key(key: &Key, control: bool) -> (m: Option<Message>)
    ensures
        m == key_binding(*key, control),
{
    match key {
        Key::ArrowUp => Some(Message::SelectPrev),
        Key::ArrowDown => Some(Message::SelectNext),
        Key::Enter => Some(Message::ActivateSelected),
        Key::Escape => Some(Message::Quit),
        Key::Other => None,
        Key::Character(text) => {
            let c = chars_of(text.as_str());
            if eq_str(&c, "1") { Some(Message::SelectIndex(0)) }
            else if eq_str(&c, "2") { Some(Message::SelectIndex(1)) }
            else if eq_str(&c, "3") { Some(Message::SelectIndex(2)) }
            else if eq_str(&c, "4") { Some(Message::SelectIndex(3)) }
            else if eq_str(&c, "5") { Some(Message::SelectIndex(4)) }
            else if eq_str(&c, "6") { Some(Message::SelectIndex(5)) }
            else if eq_str(&c, "7") { Some(Message::SelectIndex(6)) }
            else if eq_str(&c, "8") { Some(Message::SelectIndex(7)) }
            else if eq_str(&c, "9") { Some(Message::SelectIndex(8)) }
            else if eq_str(&c, "k") { Some(Message::SelectPrev) }
            else if eq_str(&c, "j") { Some(Message::SelectNext) }
            else if eq_str(&c, "x") { Some(Message::Disconnect) }
            else if eq_str(&c, "i") { Some(Message::StartImport) }
            else if eq_str(&c, "r") { Some(Message::Refresh) }
            else if eq_str(&c, "d") { Some(Message::StartDelete) }
            else if eq_str(&c, "y") || eq_str(&c, "Y") { Some(Message::ConfirmDelete) }
            else if eq_str(&c, "n") || eq_str(&c, "N") { Some(Message::CancelDelete) }
            else if eq_str(&c, "q") { Some(Message::Quit) }
            else if eq_str(&c, "c") && control { Some(Message::Quit) }
            else { None }
        },
    }
}


// ---------------------------------------------------------------------------
// Importing a batch of config files
// ---------------------------------------------------------------------------

/// The progress of importing a batch of config files one by one, skipping
/// names that NetworkManager already has (importing would otherwise create a
/// second connection of the same name).
pub struct ImportBatch {
    existing: Vec<String>,
    total: usize,
    imported: usize,
    skipped: usize,
    failures: Vec<String>,
    last_name: String,
}

pub struct ImportBatchView {
    /// The connection names known to exist, including those imported so far.
    pub existing: Seq<Seq<char>>,
    /// How many files the batch has.
    pub total: nat,
    pub imported: nat,
    pub skipped: nat,
    /// One line per file that failed.
    pub failures: Seq<Seq<char>>,
    /// The name of the last file imported.
    pub last_name: Seq<char>,
}

impl View for ImportBatch {
    type V = ImportBatchView;

    closed spec fn view(&self) -> ImportBatchView {
        ImportBatchView {
            existing: string_views(self.existing@),
            total: self.total as nat,
            imported: self.imported as nat,
            skipped: self.skipped as nat,
            failures: string_views(self.failures@),
            last_name: self.last_name@,
        }
    }
}

/// How many files of the batch have been dealt with.
pub open spec fn processed(v: ImportBatchView) -> nat {
    v.imported + v.skipped + v.failures.len()
}

pub open spec fn summary_parts(v: ImportBatchView) -> Seq<Seq<char>> {
    let imported = if v.imported > 0 {
        seq![
            if v.imported == 1 && v.total == 1 {
                "imported `"@ + v.last_name + "`"@
            } else {
                "imported "@ + decimal(v.imported)
            },
        ]
    } else {
        Seq::empty()
    };
    let skipped = if v.skipped > 0 {
        seq!["skipped "@ + decimal(v.skipped) + " existing"@]
    } else {
        Seq::empty()
    };
    let failed = if v.failures.len() > 0 {
        seq![decimal(v.failures.len()) + " failed — "@ + v.failures[0]]
    } else {
        Seq::empty()
    };
    let parts = imported + skipped + failed;
    if parts.len() == 0 {
        seq!["nothing to import"@]
    } else {
        parts
    }
}

/// The one-line report of a batch.
pub open spec fn summary_text(v: ImportBatchView) -> Seq<char> {
    join(summary_parts(v), " • "@)
}

/// The batch once the file named `name` is imported.
pub open spec fn after_import(v: ImportBatchView, name: Seq<char>) -> ImportBatchView {
    ImportBatchView { imported: v.imported + 1, existing: v.existing.push(name), last_name: name, ..v }
}

/// A name imported earlier in a batch counts as existing from then on, so a
/// second file of the same name is skipped: no batch creates two connections
/// of one name.
pub proof fn law_no_name_imported_twice(v: ImportBatchView, name: Seq<char>)
    ensures
        after_import(v, name).existing.contains(name),
{
    assert(after_import(v, name).existing[v.existing.len() as int] == name);
}

/// `v` with `x` added at the end.
fn pushed(v: &Vec<String>, x: String) -> (r: Vec<String>)
    ensures
        r@ == v@.push(x),
{
    let mut r = v.clone();
    assert(r@ =~= v@);
    r.push(x);
    r
}

impl ImportBatch {
    #[verifier::type_invariant]
    spec fn wf(self) -> bool {
        self.imported + self.skipped + self.failures.len() <= self.total
    }

    /// A batch of `total` files; `existing` are the connection names
    /// NetworkManager already has.
    pub fn new(existing: Vec<String>, total: usize) -> (b: ImportBatch)
        ensures
            b@.existing == string_views(existing@),
            b@.total == total,
            b@.imported == 0,
            b@.skipped == 0,
            b@.failures.len() == 0,
            b@.last_name.len() == 0,
    {
        let b = ImportBatch {
            existing,
            total,
            imported: 0,
            skipped: 0,
            failures: Vec::new(),
            last_name: String::new(),
        };
        assert(b@.failures =~= Seq::<Seq<char>>::empty());
        b
    }

    /// How many files have been dealt with.
    pub fn processed(&self) -> (n: usize)
        ensures
            n == processed(self@),
    {
        proof {
            use_type_invariant(self);
        }
        self.imported + self.skipped + self.failures.len()
    }

    /// How many files the batch has.
    pub fn total(&self) -> (n: usize)
        ensures
            n == self@.total,
    {
        self.total
    }

    /// A connection named `name` exists already.
    pub fn is_existing(&self, name: &str) -> (b: bool)
        ensures
            b == self@.existing.contains(name@),
    {
        let n = self.existing.len();
        for i in 0..n
            invariant
                n == self.existing@.len(),
                forall|k: int| 0 <= k < i ==> #[trigger] self@.existing[k] != name@,
        {
            assert(self@.existing[i as int] == self.existing@[i as int]@);
            if self.existing[i].as_str().unicode_len() == name.unicode_len() && eq_str(
                &chars_of(self.existing[i].as_str()),
                name,
            ) {
                assert(self@.existing[i as int] == name@);
                return true;
            }
        }
        false
    }

    /// The next file was skipped because its connection exists already.
    pub fn record_skipped(&mut self)
        requires
            processed(old(self)@) < old(self)@.total,
        ensures
            final(self)@ == (ImportBatchView { skipped: old(self)@.skipped + 1, ..old(self)@ }),
    {
        proof {
            use_type_invariant(&*self);
        }
        self.skipped = self.skipped + 1;
    }

    /// The next file was imported as `name`.
    pub fn record_imported(&mut self, name: String)
        requires
            processed(old(self)@) < old(self)@.total,
        ensures
            final(self)@ == after_import(old(self)@, name@),
    {
        proof {
            use_type_invariant(&*self);
        }
        let ghost before = self@.existing;
        self.existing = pushed(&self.existing, name.clone());
        assert(self@.existing =~= before.push(name@));
        self.last_name = name;
        self.imported = self.imported + 1;
    }

    /// The next file, labelled `label`, failed with the message `err`; the
    /// report keeps the first line.
    pub fn record_failure(&mut self, label: &str, err: &str)
        requires
            processed(old(self)@) < old(self)@.total,
        ensures
            final(self)@ == (ImportBatchView {
                failures: old(self)@.failures.push(first_line_text(label@ + ": "@ + err@)),
                ..old(self)@
            }),
    {
        proof {
            use_type_invariant(&*self);
        }
        let head = concat(label, ": ");
        let full = concat(head.as_str(), err);
        let line = first_line(full.as_str());
        let ghost before = self@.failures;
        self.failures = pushed(&self.failures, line);
        assert(self@.failures =~= before.push(line@));
    }

    /// Decides what to do with the next file, labelled `label`, given what
    /// reading it gave (its kind and connection name, or the error): a file
    /// that could not be read or identified is a failure, one whose name
    /// exists already is skipped, and any other is to be imported (the
    /// result), to be recorded once the import is done.
    pub fn plan_file(&mut self, label: &str, preview: Result<(ConfigKind, String), Error>) -> (r: Option<(ConfigKind, String)>)
        requires
            processed(old(self)@) < old(self)@.total,
        ensures
            preview matches Err(e) ==> r is None && final(self)@ == (ImportBatchView {
                failures: old(self)@.failures.push(first_line_text(label@ + ": "@ + error_message(e))),
                ..old(self)@
            }),
            preview matches Ok((k, name)) ==> if old(self)@.existing.contains(name@) {
                r is None && final(self)@ == (ImportBatchView { skipped: old(self)@.skipped + 1, ..old(self)@ })
            } else {
                r == Some((k, name)) && final(self)@ == old(self)@
            },
    {
        match preview {
            Err(e) => {
                let msg = e.message();
                self.record_failure(label, msg.as_str());
                None
            },
            Ok((kind, name)) => {
                if self.is_existing(name.as_str()) {
                    self.record_skipped();
                    None
                } else {
                    Some((kind, name))
                }
            },
        }
    }

    /// The report: `Ok` when nothing failed, else `Err`, the text joining
    /// what was imported, skipped and failed.
    pub fn summary(&self) -> (r: Result<String, String>)
        ensures
            self@.failures.len() == 0 ==> (r matches Ok(s) && s@ == summary_text(self@)),
            self@.failures.len() > 0 ==> (r matches Err(s) && s@ == summary_text(self@)),
    {
        let ghost v = self@;
        let mut parts: Vec<String> = Vec::new();
        if self.imported > 0 {
            if self.imported == 1 && self.total == 1 {
                let head = concat("imported `", self.last_name.as_str());
                parts.push(concat(head.as_str(), "`"));
            } else {
                let count = decimal_string(self.imported as u64);
                parts.push(concat("imported ", count.as_str()));
            }
        }
        let ghost after_imported = string_views(parts@);
        if self.skipped > 0 {
            let count = decimal_string(self.skipped as u64);
            let head = concat("skipped ", count.as_str());
            parts.push(concat(head.as_str(), " existing"));
        }
        let ghost after_skipped = string_views(parts@);
        if self.failures.len() > 0 {
            let count = decimal_string(self.failures.len() as u64);
            let head = concat(count.as_str(), " failed — ");
            assert(v.failures[0] == self.failures@[0]@);
            parts.push(concat(head.as_str(), self.failures[0].as_str()));
        }
        if parts.len() == 0 {
            parts.push("nothing to import".to_owned());
        }
        assert(string_views(parts@) =~= summary_parts(v));
        let msg = join_strings(&parts, " • ");
        if self.failures.len() == 0 {
            Ok(msg)
        } else {
            Err(msg)
        }
    }
}

// ---------------------------------------------------------------------------
// Reports of finished operations
// ---------------------------------------------------------------------------

pub open spec fn toggled_text(name: Seq<char>, t: Toggled) -> Seq<char> {
    match t {
        Toggled::Up => "connected `"@ + name + "`"@,
        Toggled::Down => "disconnected `"@ + name + "`"@,
    }
}

/// The report of toggling the connection `name`.
pub fn activation_report(name: &str, outcome: Result<Toggled, String>) -> (r: Result<String, String>)
    ensures
        outcome matches Ok(t) ==> (r matches Ok(s) && s@ == toggled_text(name@, t)),
        outcome matches Err(e) ==> (r matches Err(s) && s@ == e@),
{
    match outcome {
        Ok(Toggled::Up) => {
            let head = concat("connected `", name);
            Ok(concat(head.as_str(), "`"))
        },
        Ok(Toggled::Down) => {
            let head = concat("disconnected `", name);
            Ok(concat(head.as_str(), "`"))
        },
        Err(e) => Err(e),
    }
}

/// The report of disconnecting everything.
pub fn disconnect_report(outcome: Result<(), String>) -> (r: Result<String, String>)
    ensures
        outcome is Ok ==> (r matches Ok(s) && s@ == "disconnected"@),
        outcome matches Err(e) ==> (r matches Err(s) && s@ == e@),
{
    match outcome {
        Ok(()) => Ok("disconnected".to_owned()),
        Err(e) => Err(e),
    }
}

/// The report of deleting the connection `name`.
pub fn delete_report(name: &str, outcome: Result<(), String>) -> (r: Result<String, String>)
    ensures
        outcome is Ok ==> (r matches Ok(s) && s@ == "deleted `"@ + name@ + "`"@),
        outcome matches Err(e) ==> (r matches Err(s) && s@ == e@),
{
    match outcome {
        Ok(()) => {
            let head = concat("deleted `", name);
            Ok(concat(head.as_str(), "`"))
        },
        Err(e) => Err(e),
    }
}

} // verus!
