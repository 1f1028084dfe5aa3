use byt::cli::{auth_user_pass_hint, check_import_request, import_done_line, import_failures, Cli, Command};
use byt::config::Config;
use byt::vpn::ConfigKind;

#[test]
fn no_subcommand_means_run() {
    assert!(matches!(Cli { command: None }.into_command(), Command::Run));
    assert!(matches!(Cli { command: Some(Command::Status) }.into_command(), Command::Status));
    let c = Cli { command: Some(Command::Import { paths: vec!["a.conf".into()], name: Some("x".into()) }) };
    match c.into_command() {
        Command::Import { paths, name } => {
            assert_eq!(paths, vec!["a.conf".to_string()]);
            assert_eq!(name.as_deref(), Some("x"));
        }
        other => panic!("unexpected {:?}", other),
    }
}

#[test]
fn name_goes_with_a_single_file_only() {
    assert_eq!(check_import_request(false, 3), Ok(()));
    assert_eq!(check_import_request(true, 1), Ok(()));
    assert_eq!(check_import_request(true, 0), Ok(()));
    assert_eq!(
        check_import_request(true, 2),
        Err("--name only makes sense when importing a single file".to_string())
    );
}

#[test]
fn import_failure_summary() {
    assert_eq!(import_failures(0, 3), None);
    assert_eq!(import_failures(2, 3), Some("2 of 3 imports failed".to_string()));
    assert_eq!(import_failures(10, 12), Some("10 of 12 imports failed".to_string()));
}

#[test]
fn import_messages() {
    assert_eq!(import_done_line("home", ConfigKind::WireGuard), "✓ imported `home` (wireguard)");
    assert_eq!(import_done_line("work", ConfigKind::OpenVpn), "✓ imported `work` (openvpn)");
    let hint = auth_user_pass_hint("work");
    assert_eq!(hint.len(), 4);
    assert_eq!(hint[0], "This config uses `auth-user-pass`. Set credentials before activating:");
    assert_eq!(hint[1], "  nmcli connection modify work vpn.user-name '<username>'");
    assert_eq!(hint[2], "  nmcli connection modify work +vpn.data password-flags=0");
    assert_eq!(hint[3], "  nmcli connection modify work vpn.secrets password='<password>'");
}

#[test]
fn default_config_keeps_the_window_open() {
    assert!(!Config::default().quit_on_switch);
}

#[test]
fn import_error_messages() {
    assert_eq!(
        byt::cli::unidentified_config("/tmp/x.txt", "boom"),
        "could not identify /tmp/x.txt: boom"
    );
    assert_eq!(byt::cli::import_error_line("/tmp/x.txt", "boom"), "✗ /tmp/x.txt: boom");
}
