use byt::error::Error;
use byt::vpn::import::{detect_config_kind, import_steps, import_wireguard_steps, preview_name};
use byt::vpn::nm::{activation_failure, classify, find_by_id, looks_like_secrets_error, vpn_connections, SavedConnection};
use byt::vpn::nmcli::{command_failed, connection_down_args, connection_up_args, wireguard_connections_from};
use byt::vpn::tailscale::{is_active_state, start_step, status_connection, up_failure, up_timed_out, BackendStatus, StartStep};
use byt::vpn::{
    assemble_snapshot, delete_args, down_call, plan_activation, plan_disconnect, plan_toggle, up_call,
    BackendCall, ConfigKind, Connection, ConnectionState, Snapshot, Toggled, VpnKind,
};

fn conn(name: &str, kind: VpnKind, state: ConnectionState) -> Connection {
    Connection { name: name.to_owned(), kind, state, detail: None }
}

fn names(v: &[Connection]) -> Vec<String> {
    v.iter().map(|c| c.name.clone()).collect()
}

#[test]
fn kind_names() {
    assert_eq!(VpnKind::Tailscale.as_str(), "tailscale");
    assert_eq!(VpnKind::WireGuard.as_str(), "wireguard");
    assert_eq!(VpnKind::OpenVpn.as_str(), "openvpn");
    assert_eq!(ConfigKind::WireGuard.as_str(), "wireguard");
    assert_eq!(ConfigKind::OpenVpn.as_str(), "openvpn");
}

#[test]
fn snapshot_puts_tailscale_first_then_sorts_by_name_stably() {
    let ts = conn("Tailscale", VpnKind::Tailscale, ConnectionState::Inactive);
    let wg = vec![
        conn("zeta", VpnKind::WireGuard, ConnectionState::Inactive),
        conn("alpha", VpnKind::WireGuard, ConnectionState::Active),
        conn("Beta", VpnKind::WireGuard, ConnectionState::Inactive),
        conn("alpha", VpnKind::WireGuard, ConnectionState::Inactive),
        conn("alp", VpnKind::WireGuard, ConnectionState::Inactive),
    ];
    let snap = assemble_snapshot(Ok(ts), Ok(wg)).unwrap();
    assert_eq!(names(&snap.connections), vec!["Tailscale", "Beta", "alp", "alpha", "alpha", "zeta"]);
    // the two `alpha` entries keep their order
    assert_eq!(snap.connections[3].state, ConnectionState::Active);
    assert_eq!(snap.connections[4].state, ConnectionState::Inactive);
}

#[test]
fn snapshot_errors_prefer_tailscale() {
    let r = assemble_snapshot(Err(Error::TailscaleNeedsLogin), Err(Error::NotFound("x".into())));
    assert!(matches!(r, Err(Error::TailscaleNeedsLogin)));
    let ts = conn("Tailscale", VpnKind::Tailscale, ConnectionState::Inactive);
    let r = assemble_snapshot(Ok(ts), Err(Error::NotFound("x".into())));
    assert!(matches!(r, Err(Error::NotFound(n)) if n == "x"));
}

fn sample() -> Snapshot {
    Snapshot {
        connections: vec![
            conn("Tailscale", VpnKind::Tailscale, ConnectionState::Active),
            conn("home", VpnKind::WireGuard, ConnectionState::Inactive),
            conn("work", VpnKind::OpenVpn, ConnectionState::Active),
        ],
    }
}

#[test]
fn activation_brings_every_other_active_connection_down() {
    let snap = sample();
    let target = conn("home", VpnKind::WireGuard, ConnectionState::Inactive);
    let plan = plan_activation(&snap, &target);
    assert_eq!(names(&plan.bring_down), vec!["Tailscale", "work"]);
    assert!(plan.bring_up);
}

#[test]
fn activation_of_the_only_active_connection_is_a_no_op() {
    let snap = Snapshot {
        connections: vec![
            conn("Tailscale", VpnKind::Tailscale, ConnectionState::Inactive),
            conn("home", VpnKind::WireGuard, ConnectionState::Active),
        ],
    };
    let target = conn("home", VpnKind::WireGuard, ConnectionState::Active);
    let plan = plan_activation(&snap, &target);
    assert!(plan.bring_down.is_empty());
    assert!(!plan.bring_up);
}

#[test]
fn activation_matches_name_and_kind() {
    let snap = Snapshot {
        connections: vec![conn("home", VpnKind::OpenVpn, ConnectionState::Active)],
    };
    let target = conn("home", VpnKind::WireGuard, ConnectionState::Inactive);
    let plan = plan_activation(&snap, &target);
    assert_eq!(names(&plan.bring_down), vec!["home"]);
    assert!(plan.bring_up);
}

#[test]
fn disconnect_brings_down_every_active_connection() {
    assert_eq!(names(&plan_disconnect(&sample())), vec!["Tailscale", "work"]);
}

#[test]
fn toggle_goes_down_for_an_active_target_and_up_otherwise() {
    let snap = sample();
    let (plan, dir) = plan_toggle(&snap, &conn("work", VpnKind::OpenVpn, ConnectionState::Active));
    assert_eq!(dir, Toggled::Down);
    assert_eq!(names(&plan.bring_down), vec!["work"]);
    assert!(!plan.bring_up);
    let (plan, dir) = plan_toggle(&snap, &conn("home", VpnKind::WireGuard, ConnectionState::Inactive));
    assert_eq!(dir, Toggled::Up);
    assert_eq!(names(&plan.bring_down), vec!["Tailscale", "work"]);
    assert!(plan.bring_up);
}

#[test]
fn backend_calls() {
    let ts = conn("Tailscale", VpnKind::Tailscale, ConnectionState::Active);
    let wg = conn("home", VpnKind::WireGuard, ConnectionState::Active);
    assert_eq!(down_call(&ts), BackendCall::StopTailscale);
    assert_eq!(up_call(&ts), BackendCall::StartTailscale);
    assert_eq!(down_call(&wg), BackendCall::NmDown("home".into()));
    assert_eq!(up_call(&wg), BackendCall::NmUp("home".into()));
    assert_eq!(connection_up_args("home"), vec!["connection", "up", "home"]);
    assert_eq!(connection_down_args("home"), vec!["connection", "down", "home"]);
}

#[test]
fn tailscale_cannot_be_deleted() {
    let ts = conn("Tailscale", VpnKind::Tailscale, ConnectionState::Active);
    match delete_args(&ts) {
        Err(e @ Error::CannotDelete { .. }) => {
            assert_eq!(e.message(), "tailscale connections cannot be deleted from byt")
        }
        other => panic!("unexpected {other:?}"),
    }
    let wg = conn("home", VpnKind::WireGuard, ConnectionState::Active);
    assert_eq!(delete_args(&wg).unwrap(), vec!["connection", "delete", "home"]);
}

#[test]
fn status_lines() {
    assert_eq!(
        conn("home", VpnKind::WireGuard, ConnectionState::Active).display_line(),
        "wireguard  active     home"
    );
    let mut ts = conn("Tailscale", VpnKind::Tailscale, ConnectionState::Unavailable);
    ts.detail = Some("not installed".into());
    assert_eq!(ts.display_line(), "tailscale  unavailable Tailscale  (not installed)");
}

#[test]
fn nmcli_listing_marks_active_wireguard_connections() {
    let all = "home-vpn:wireguard\nwired:802-3-ethernet\n\nwork\\:2:wireguard\noffice:wireguard\n";
    let active = "wired:802-3-ethernet\noffice:wireguard\n";
    let v = wireguard_connections_from(all, active);
    assert_eq!(names(&v), vec!["home-vpn", "work\\:2", "office"]);
    let states: Vec<ConnectionState> = v.iter().map(|c| c.state).collect();
    assert_eq!(states, vec![ConnectionState::Inactive, ConnectionState::Inactive, ConnectionState::Active]);
    assert!(v.iter().all(|c| c.kind == VpnKind::WireGuard && c.detail.is_none()));
}

#[test]
fn failed_command_error() {
    let args = vec!["connection".to_owned(), "up".to_owned(), "home".to_owned()];
    let e = command_failed("nmcli", &args, Some(4), "  Error: no such connection \n");
    assert_eq!(e.message(), "`nmcli connection up home` exited with status 4: Error: no such connection");
    let e = command_failed("nmcli", &args, None, "");
    assert!(matches!(&e, Error::CommandFailed { status: -1, .. }));
}

#[test]
fn classify_saved_connections() {
    assert_eq!(classify(Some("wireguard"), None), Some(VpnKind::WireGuard));
    assert_eq!(classify(Some("vpn"), Some("org.freedesktop.NetworkManager.openvpn")), Some(VpnKind::OpenVpn));
    assert_eq!(classify(Some("vpn"), Some("org.freedesktop.NetworkManager.vpnc")), None);
    assert_eq!(classify(Some("vpn"), None), None);
    assert_eq!(classify(Some("802-3-ethernet"), None), None);
    assert_eq!(classify(None, None), None);
}

fn saved(id: Option<&str>, t: &str, svc: Option<&str>, active: bool) -> SavedConnection {
    SavedConnection {
        id: id.map(str::to_owned),
        conn_type: Some(t.to_owned()),
        service_type: svc.map(str::to_owned),
        active,
    }
}

#[test]
fn vpn_connections_from_saved_settings() {
    let list = vec![
        saved(Some("wired"), "802-3-ethernet", None, true),
        saved(Some("home"), "wireguard", None, true),
        saved(None, "802-3-ethernet", None, false),
        saved(Some("work"), "vpn", Some("x.openvpn"), false),
    ];
    let v = vpn_connections(&list).unwrap();
    assert_eq!(names(&v), vec!["home", "work"]);
    assert_eq!(v[0].state, ConnectionState::Active);
    assert_eq!(v[1].kind, VpnKind::OpenVpn);
    assert_eq!(v[1].state, ConnectionState::Inactive);

    let bad = vec![saved(None, "wireguard", None, false)];
    match vpn_connections(&bad) {
        Err(e @ Error::DBusValue(_)) => {
            assert_eq!(e.message(), "D-Bus value conversion failed: connection without a `connection.id`")
        }
        other => panic!("unexpected {other:?}"),
    }
}

#[test]
fn secrets_errors_are_recognised() {
    assert!(looks_like_secrets_error("org.freedesktop.NetworkManager.AgentManager.NoSecrets: No agents were available"));
    assert!(looks_like_secrets_error("a secret is missing"));
    assert!(!looks_like_secrets_error("SECRET"));
    assert!(!looks_like_secrets_error("permission denied"));
    match activation_failure("work", "NoSecrets") {
        Some(e @ Error::SecretsRequired { .. }) => assert_eq!(
            e.message(),
            "activation needs secrets that aren't stored. Set them with:\n  nmcli connection modify 'work' vpn.user-name '<username>'\n  nmcli connection modify 'work' +vpn.data password-flags=0\n  nmcli connection modify 'work' vpn.secrets password='<password>'"
        ),
        other => panic!("unexpected {other:?}"),
    }
    assert!(activation_failure("work", "timeout").is_none());
}

#[test]
fn find_connection_by_id() {
    let ids = vec!["a".to_owned(), "b".to_owned(), "b".to_owned()];
    assert_eq!(find_by_id(&ids, "b").unwrap(), 1);
    match find_by_id(&ids, "c") {
        Err(e @ Error::NotFound(_)) => assert_eq!(e.message(), "connection `c` not found"),
        other => panic!("unexpected {other:?}"),
    }
}

#[test]
fn tailscale_row_states() {
    let c = status_connection(false, true, None);
    assert_eq!(c.state, ConnectionState::Unavailable);
    assert_eq!(c.detail.as_deref(), Some("not installed"));
    assert_eq!(c.name, "Tailscale");
    assert_eq!(c.kind, VpnKind::Tailscale);
    let running = BackendStatus { backend_state: "Running".into(), magic_dns_suffix: Some("tail1234.ts.net".into()) };
    let c = status_connection(true, true, Some(running.clone()));
    assert_eq!(c.state, ConnectionState::Active);
    assert_eq!(c.detail.as_deref(), Some("tail1234.ts.net"));
    let c = status_connection(true, false, Some(running));
    assert_eq!(c.state, ConnectionState::Inactive);
    assert_eq!(c.detail, None);
    let logged_out = BackendStatus { backend_state: "NeedsMachineAuth".into(), magic_dns_suffix: None };
    let c = status_connection(true, true, Some(logged_out));
    assert_eq!(c.state, ConnectionState::Inactive);
    assert_eq!(c.detail.as_deref(), Some("logged out — run `tailscale up`"));
    let stopped = BackendStatus { backend_state: "Stopped".into(), magic_dns_suffix: Some("x".into()) };
    assert_eq!(status_connection(true, true, Some(stopped)).detail, None);
    assert_eq!(status_connection(true, true, None).state, ConnectionState::Inactive);
}

#[test]
fn tailscale_start_steps() {
    assert_eq!(start_step(false, Some("Running")).unwrap(), StartStep::StartUnit);
    assert_eq!(start_step(true, Some("Running")).unwrap(), StartStep::AlreadyRunning);
    assert_eq!(start_step(true, Some("Stopped")).unwrap(), StartStep::RunUp);
    assert_eq!(start_step(true, None).unwrap(), StartStep::RunUp);
    match start_step(true, Some("NeedsLogin")) {
        Err(e @ Error::TailscaleNeedsLogin) => assert_eq!(
            e.message(),
            "tailscale is logged out; run `tailscale up` in a terminal to authenticate"
        ),
        other => panic!("unexpected {other:?}"),
    }
    assert!(is_active_state("active"));
    assert!(!is_active_state("activating"));
}

#[test]
fn tailscale_up_errors() {
    let e = up_failure(Some(1), "Access denied: prefs write access denied\n");
    assert_eq!(
        e.message(),
        "`tailscale up` exited with status 1: Access denied: prefs write access denied\nhint: grant yourself operator rights: sudo tailscale set --operator=$USER"
    );
    let e = up_failure(None, " boom ");
    assert_eq!(e.message(), "`tailscale up` exited with status -1: boom");
    assert_eq!(up_timed_out().message(), "`tailscale up` exited with status -1: timed out after 15s");
}

#[test]
fn config_kind_is_detected_from_contents() {
    assert_eq!(detect_config_kind("/a/x.conf", "[Interface]\nAddress = 1.2.3.4/32\n").unwrap(), ConfigKind::WireGuard);
    assert_eq!(detect_config_kind("/a/x.conf", "client\nremote h 1\n").unwrap(), ConfigKind::OpenVpn);
    match detect_config_kind("/a/x.conf", "# nothing\n") {
        Err(e @ Error::InvalidConfig { .. }) => {
            assert_eq!(e.message(), "invalid config at /a/x.conf: not a WireGuard or OpenVPN config")
        }
        other => panic!("unexpected {other:?}"),
    }
    let (kind, name) = preview_name("/etc/vpn/berlin.ovpn", "client\n").unwrap();
    assert_eq!(kind, ConfigKind::OpenVpn);
    assert_eq!(name, "berlin");
    let (kind, name) = preview_name("/etc/vpn/wg-home.conf", "[Peer]\n").unwrap();
    assert_eq!(kind, ConfigKind::WireGuard);
    assert_eq!(name, "wg-home");
}

fn args_of(steps: &[byt::vpn::import::NmcliStep]) -> Vec<(Vec<String>, bool)> {
    steps.iter().map(|s| (s.args.clone(), s.must_succeed)).collect()
}

fn strs(v: &[&str]) -> Vec<String> {
    v.iter().map(|s| s.to_string()).collect()
}

#[test]
fn import_renames_when_the_file_stem_differs() {
    let steps = import_steps(ConfigKind::OpenVpn, "/tmp/provider.ovpn", "work");
    assert_eq!(
        args_of(&steps),
        vec![
            (strs(&["connection", "import", "type", "openvpn", "file", "/tmp/provider.ovpn"]), true),
            (strs(&["connection", "modify", "provider", "connection.id", "work"]), true),
            (strs(&["connection", "modify", "work", "connection.autoconnect", "no"]), true),
            (strs(&["connection", "down", "work"]), false),
        ]
    );
    let steps = import_steps(ConfigKind::WireGuard, "/tmp/home.conf", "home");
    assert_eq!(
        args_of(&steps),
        vec![
            (strs(&["connection", "import", "type", "wireguard", "file", "/tmp/home.conf"]), true),
            (strs(&["connection", "modify", "home", "connection.autoconnect", "no"]), true),
            (strs(&["connection", "down", "home"]), false),
        ]
    );
    let steps = import_wireguard_steps("/tmp/wg0.conf", "office");
    assert_eq!(
        args_of(&steps),
        vec![
            (strs(&["connection", "import", "type", "wireguard", "file", "/tmp/wg0.conf"]), true),
            (strs(&["connection", "modify", "wg0", "connection.id", "office"]), true),
        ]
    );
}

#[test]
fn error_messages() {
    assert_eq!(Error::DBus("x".into()).message(), "D-Bus error: x");
    assert_eq!(
        Error::MissingExecutable("nmcli".into()).message(),
        "required executable not found: `nmcli`. Is it installed and on PATH?"
    );
    assert_eq!(
        Error::Unavailable { kind: "tailscale".into() }.message(),
        "tailscale backend is not available on this system"
    );
    assert_eq!(Error::AlreadyRunning.message(), "another instance is already running");
    assert_eq!(Error::Io("disk".into()).message(), "i/o error: disk");
    assert_eq!(Error::Json("eof".into()).message(), "json error: eof");
    assert_eq!(
        Error::CommandFailed { cmd: "c".into(), status: -2147483648, stderr: "e".into() }.message(),
        "`c` exited with status -2147483648: e"
    );
}
