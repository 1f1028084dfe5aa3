use byt::app::{
    activation_report, delete_prompt, delete_report, disconnect_report, first_line, handle_key, kind_label,
    row_detail, row_trailing, state_mark, Action, App, ImportBatch, Key, Message, RowTrailing,
};
use byt::config::Config;
use byt::error::Error;
use byt::path::file_label;
use byt::vpn::{ConfigKind, Connection, ConnectionState, Snapshot, Toggled, VpnKind};

fn conn(name: &str, kind: VpnKind, state: ConnectionState) -> Connection {
    Connection { name: name.to_owned(), kind, state, detail: None }
}

fn sample() -> Snapshot {
    Snapshot {
        connections: vec![
            conn("Tailscale", VpnKind::Tailscale, ConnectionState::Active),
            conn("home", VpnKind::WireGuard, ConnectionState::Inactive),
            conn("work", VpnKind::OpenVpn, ConnectionState::Unavailable),
        ],
    }
}

fn loaded(quit_on_switch: bool) -> App {
    let (mut app, first) = App::new(Config { quit_on_switch });
    assert!(matches!(first, Action::Dispatch(Message::Refresh)));
    assert!(matches!(app.update(Message::Refresh), Action::LoadSnapshot));
    assert!(matches!(app.update(Message::SnapshotReady(Ok(sample()))), Action::Nothing));
    app
}

#[test]
fn new_app_starts_empty_and_asks_for_a_refresh() {
    let (app, act) = App::new(Config::default());
    assert!(matches!(act, Action::Dispatch(Message::Refresh)));
    assert!(app.connections().is_empty());
    assert_eq!(app.selected(), 0);
    assert!(app.pending().is_none());
    assert!(app.status().is_none());
    assert!(!app.config().quit_on_switch);
    assert!(app.confirming_delete().is_none());
    assert_eq!(app.title(), "byt");
}

#[test]
fn selection_moves_and_scrolls() {
    let mut app = loaded(false);
    assert_eq!(app.connections().len(), 3);
    assert!(matches!(app.update(Message::SelectPrev), Action::ScrollTo { index: 0, total: 3 }));
    assert_eq!(app.selected(), 0);
    assert!(matches!(app.update(Message::SelectNext), Action::ScrollTo { index: 1, total: 3 }));
    app.update(Message::SelectNext);
    assert_eq!(app.selected(), 2);
    // the last row stays selected
    assert!(matches!(app.update(Message::SelectNext), Action::ScrollTo { index: 2, total: 3 }));
    assert_eq!(app.selected(), 2);
    // an index past the end is ignored
    app.update(Message::SelectIndex(7));
    assert_eq!(app.selected(), 2);
    app.update(Message::SelectIndex(1));
    assert_eq!(app.selected(), 1);
}

#[test]
fn a_single_row_does_not_scroll() {
    let (mut app, _) = App::new(Config::default());
    let one = Snapshot { connections: vec![conn("home", VpnKind::WireGuard, ConnectionState::Inactive)] };
    app.update(Message::SnapshotReady(Ok(one)));
    assert!(matches!(app.update(Message::SelectNext), Action::Nothing));
}

#[test]
fn a_shorter_snapshot_clamps_the_selection() {
    let mut app = loaded(false);
    app.update(Message::SelectIndex(2));
    let short = Snapshot { connections: vec![conn("home", VpnKind::WireGuard, ConnectionState::Inactive)] };
    app.update(Message::SnapshotReady(Ok(short)));
    assert_eq!(app.selected(), 0);
    assert_eq!(app.connections().len(), 1);
}

#[test]
fn a_failed_snapshot_sets_the_status_and_keeps_the_list() {
    let mut app = loaded(false);
    assert!(matches!(app.update(Message::SnapshotReady(Err("no bus".into()))), Action::Nothing));
    assert_eq!(app.status().as_deref(), Some("error: no bus"));
    assert_eq!(app.connections().len(), 3);
}

#[test]
fn activation_toggles_the_selected_connection_and_marks_it_busy() {
    let mut app = loaded(false);
    app.update(Message::SelectIndex(1));
    match app.update(Message::ActivateSelected) {
        Action::Toggle(c) => assert_eq!(c.name, "home"),
        other => panic!("unexpected {:?}", other),
    }
    assert_eq!(app.pending().as_deref(), Some("home"));
    assert!(app.is_busy());
    assert!(app.is_row_pending(1));
    assert!(!app.is_row_pending(0));
    // busy: a second activation, a disconnect, an import and a delete are ignored
    assert!(matches!(app.update(Message::ActivateSelected), Action::Nothing));
    assert!(matches!(app.update(Message::Disconnect), Action::Nothing));
    assert!(matches!(app.update(Message::StartImport), Action::Nothing));
    assert!(matches!(app.update(Message::StartDelete), Action::Nothing));
    assert_eq!(app.pending().as_deref(), Some("home"));
    // the outcome clears the busy mark and asks for a refresh
    let done = activation_report("home", Ok(Toggled::Up));
    assert!(matches!(app.update(Message::ActivationDone(done)), Action::Dispatch(Message::Refresh)));
    assert!(app.pending().is_none());
    assert_eq!(app.status().as_deref(), Some("connected `home`"));
}

#[test]
fn a_successful_switch_quits_when_asked_to() {
    let mut app = loaded(true);
    app.update(Message::SelectIndex(1));
    app.update(Message::ActivateSelected);
    assert!(matches!(app.update(Message::ActivationDone(Ok("connected `home`".into()))), Action::Exit));
}

#[test]
fn a_failed_switch_does_not_quit() {
    let mut app = loaded(true);
    app.update(Message::ActivateSelected);
    let act = app.update(Message::ActivationDone(Err("boom".into())));
    assert!(matches!(act, Action::Dispatch(Message::Refresh)));
    assert_eq!(app.status().as_deref(), Some("error: boom"));
}

#[test]
fn an_unavailable_connection_is_not_toggled() {
    let mut app = loaded(false);
    app.update(Message::SelectIndex(2));
    assert!(matches!(app.update(Message::ActivateSelected), Action::Nothing));
    assert!(app.pending().is_none());
    assert_eq!(app.status().as_deref(), Some("work is unavailable"));
}

#[test]
fn nothing_to_activate_in_an_empty_list() {
    let (mut app, _) = App::new(Config::default());
    assert!(matches!(app.update(Message::ActivateSelected), Action::Nothing));
    assert!(matches!(app.update(Message::StartDelete), Action::Nothing));
}

#[test]
fn disconnect_marks_the_gui_busy() {
    let mut app = loaded(false);
    assert!(matches!(app.update(Message::Disconnect), Action::DisconnectAll));
    assert_eq!(app.pending().as_deref(), Some(""));
    let act = app.update(Message::OperationDone(disconnect_report(Ok(()))));
    assert!(matches!(act, Action::Dispatch(Message::Refresh)));
    assert_eq!(app.status().as_deref(), Some("disconnected"));
    assert!(app.pending().is_none());
}

#[test]
fn import_picks_files_then_imports_them() {
    let mut app = loaded(false);
    assert!(matches!(app.update(Message::StartImport), Action::PickFiles));
    // a cancelled dialog changes nothing
    assert!(matches!(app.update(Message::FilesChosen(vec![])), Action::Nothing));
    assert!(app.pending().is_none());
    match app.update(Message::FilesChosen(vec!["/tmp/a.conf".into()])) {
        Action::Import(p) => assert_eq!(p, vec!["/tmp/a.conf".to_string()]),
        other => panic!("unexpected {:?}", other),
    }
    assert_eq!(app.pending().as_deref(), Some("importing /tmp/a.conf"));
    app.update(Message::OperationDone(Err("bad file".into())));
    assert_eq!(app.status().as_deref(), Some("error: bad file"));
    app.update(Message::FilesChosen(vec!["a".into(), "b".into(), "c".into()]));
    assert_eq!(app.pending().as_deref(), Some("importing 3 configs"));
}

#[test]
fn tailscale_cannot_be_deleted_from_the_gui() {
    let mut app = loaded(false);
    assert!(matches!(app.update(Message::StartDelete), Action::Nothing));
    assert!(app.confirming_delete().is_none());
    assert_eq!(app.status().as_deref(), Some("Tailscale is not a NetworkManager connection"));
}

#[test]
fn delete_asks_first_and_the_dialog_owns_enter_and_escape() {
    let mut app = loaded(false);
    app.update(Message::SelectIndex(1));
    app.update(Message::StartDelete);
    assert!(app.is_dialog_open());
    assert!(app.is_busy());
    assert_eq!(app.confirming_delete().as_ref().map(|c| c.name.as_str()), Some("home"));
    assert_eq!(app.hint(), "y/Enter confirm • n/Esc cancel");
    // Escape closes the dialog, not the application
    assert!(matches!(app.update(Message::Quit), Action::Nothing));
    assert!(!app.is_dialog_open());
    app.update(Message::StartDelete);
    // Enter confirms
    assert!(matches!(app.update(Message::ActivateSelected), Action::Dispatch(Message::ConfirmDelete)));
    match app.update(Message::ConfirmDelete) {
        Action::Delete(c) => assert_eq!(c.name, "home"),
        other => panic!("unexpected {:?}", other),
    }
    assert!(app.confirming_delete().is_none());
    assert_eq!(app.pending().as_deref(), Some("deleting home"));
    app.update(Message::OperationDone(delete_report("home", Ok(()))));
    assert_eq!(app.status().as_deref(), Some("deleted `home`"));
}

#[test]
fn cancel_closes_the_dialog_and_confirm_without_dialog_does_nothing() {
    let mut app = loaded(false);
    app.update(Message::SelectIndex(1));
    app.update(Message::StartDelete);
    assert!(matches!(app.update(Message::CancelDelete), Action::Nothing));
    assert!(app.confirming_delete().is_none());
    assert!(matches!(app.update(Message::ConfirmDelete), Action::Nothing));
    assert!(app.pending().is_none());
}

#[test]
fn quit_without_dialog_exits() {
    let mut app = loaded(false);
    assert!(matches!(app.update(Message::Quit), Action::Exit));
}

#[test]
fn quit_on_switch_toggle_is_saved() {
    let mut app = loaded(false);
    match app.update(Message::ToggleQuitOnSwitch(true)) {
        Action::SaveConfig(c) => assert!(c.quit_on_switch),
        other => panic!("unexpected {:?}", other),
    }
    assert!(app.config().quit_on_switch);
}

#[test]
fn the_hint_shows_the_status_first() {
    let mut app = loaded(false);
    assert_eq!(app.hint(), "↑/↓ select • (x)disconnect • (i)mport • (d)elete • (r)efresh • (q)uit");
    app.update(Message::OperationDone(Ok("done".into())));
    assert_eq!(app.hint(), "done");
}

#[test]
fn row_text() {
    assert_eq!(kind_label(VpnKind::Tailscale), "Tailscale");
    assert_eq!(kind_label(VpnKind::WireGuard), "WireGuard");
    assert_eq!(kind_label(VpnKind::OpenVpn), "OpenVPN");
    assert_eq!(state_mark(ConnectionState::Active), "●");
    assert_eq!(state_mark(ConnectionState::Inactive), "○");
    assert_eq!(state_mark(ConnectionState::Unavailable), "✕");
    let mut c = conn("home", VpnKind::WireGuard, ConnectionState::Active);
    assert_eq!(row_detail(&c), "WireGuard");
    c.detail = Some("10.0.0.2".into());
    assert_eq!(row_detail(&c), "WireGuard  ·  10.0.0.2");
    assert_eq!(row_trailing(0, false), RowTrailing::Shortcut("1".into()));
    assert_eq!(row_trailing(8, false), RowTrailing::Shortcut("9".into()));
    assert_eq!(row_trailing(9, false), RowTrailing::Blank);
    assert_eq!(row_trailing(3, true), RowTrailing::Busy);
    assert_eq!(delete_prompt("home"), "\"home\" will be removed permanently.");
}

#[test]
fn first_line_of_text() {
    assert_eq!(first_line("one\ntwo"), "one");
    assert_eq!(first_line("one\r\ntwo"), "one");
    assert_eq!(first_line("single"), "single");
    assert_eq!(first_line(""), "");
}

#[test]
fn key_bindings() {
    assert!(matches!(handle_key(&Key::ArrowUp, false), Some(Message::SelectPrev)));
    assert!(matches!(handle_key(&Key::ArrowDown, false), Some(Message::SelectNext)));
    assert!(matches!(handle_key(&Key::Enter, false), Some(Message::ActivateSelected)));
    assert!(matches!(handle_key(&Key::Escape, false), Some(Message::Quit)));
    assert!(matches!(handle_key(&Key::Other, false), None));
    let ch = |s: &str, ctrl: bool| handle_key(&Key::Character(s.to_owned()), ctrl);
    assert!(matches!(ch("1", false), Some(Message::SelectIndex(0))));
    assert!(matches!(ch("9", false), Some(Message::SelectIndex(8))));
    assert!(matches!(ch("0", false), None));
    assert!(matches!(ch("k", false), Some(Message::SelectPrev)));
    assert!(matches!(ch("j", false), Some(Message::SelectNext)));
    assert!(matches!(ch("x", false), Some(Message::Disconnect)));
    assert!(matches!(ch("i", false), Some(Message::StartImport)));
    assert!(matches!(ch("r", false), Some(Message::Refresh)));
    assert!(matches!(ch("d", false), Some(Message::StartDelete)));
    assert!(matches!(ch("Y", false), Some(Message::ConfirmDelete)));
    assert!(matches!(ch("n", false), Some(Message::CancelDelete)));
    assert!(matches!(ch("q", false), Some(Message::Quit)));
    assert!(matches!(ch("c", true), Some(Message::Quit)));
    assert!(matches!(ch("c", false), None));
    assert!(matches!(ch("kk", false), None));
}

#[test]
fn import_batch_single_file() {
    let mut b = ImportBatch::new(vec!["home".into()], 1);
    assert!(b.is_existing("home"));
    assert!(!b.is_existing("work"));
    b.record_imported("work".into());
    assert!(b.is_existing("work"));
    assert_eq!(b.processed(), 1);
    assert_eq!(b.total(), 1);
    assert_eq!(b.summary(), Ok("imported `work`".to_string()));
}

#[test]
fn import_batch_mixed_outcomes() {
    let mut b = ImportBatch::new(vec![], 4);
    b.record_imported("a".into());
    b.record_imported("b".into());
    b.record_skipped();
    b.record_failure("c.conf", "no [Interface] section\nmore detail");
    assert_eq!(b.processed(), 4);
    assert_eq!(
        b.summary(),
        Err("imported 2 • skipped 1 existing • 1 failed — c.conf: no [Interface] section".to_string())
    );
}

#[test]
fn import_batch_with_nothing_done() {
    let b = ImportBatch::new(vec![], 0);
    assert_eq!(b.summary(), Ok("nothing to import".to_string()));
    let mut b = ImportBatch::new(vec![], 2);
    b.record_skipped();
    b.record_skipped();
    assert_eq!(b.summary(), Ok("skipped 2 existing".to_string()));
}

#[test]
fn operation_reports() {
    assert_eq!(activation_report("home", Ok(Toggled::Down)), Ok("disconnected `home`".to_string()));
    assert_eq!(activation_report("home", Err("x".into())), Err("x".to_string()));
    assert_eq!(disconnect_report(Err("y".into())), Err("y".to_string()));
    assert_eq!(delete_report("home", Err("z".into())), Err("z".to_string()));
}

#[test]
fn import_batch_plans_each_file() {
    let mut b = ImportBatch::new(vec!["home".into()], 4);
    // an existing name is skipped
    assert_eq!(b.plan_file("home.conf", Ok((ConfigKind::WireGuard, "home".into()))), None);
    // a new one is to be imported
    let next = b.plan_file("work.ovpn", Ok((ConfigKind::OpenVpn, "work".into())));
    assert!(matches!(next, Some((ConfigKind::OpenVpn, ref n)) if n == "work"));
    b.record_imported("work".into());
    // the same name again in the batch is skipped too
    assert_eq!(b.plan_file("work.conf", Ok((ConfigKind::WireGuard, "work".into()))), None);
    // a file that could not be identified is a failure
    let bad = Error::InvalidConfig { path: "x.txt".into(), context: "not a WireGuard or OpenVPN config".into() };
    assert_eq!(b.plan_file("x.txt", Err(bad)), None);
    assert_eq!(b.processed(), 4);
    assert_eq!(
        b.summary(),
        Err("imported 1 • skipped 2 existing • 1 failed — x.txt: invalid config at x.txt: not a WireGuard or OpenVPN config"
            .to_string())
    );
}

#[test]
fn file_labels() {
    assert_eq!(file_label("/tmp/vpn/a.conf"), "a.conf");
    assert_eq!(file_label("dir/sub/"), "sub");
    assert_eq!(file_label("/"), "/");
    assert_eq!(file_label("x/.."), "x/..");
}
