//! The command line: what was asked for, and the checks and messages of the
//! `import` command.
use vstd::prelude::*;

use crate::text::{concat, decimal, decimal_string, string_views};
use crate::vpn::{ConfigKind, config_kind_name};

verus! {

/// The parsed command line.
#[derive(Debug)]
pub struct Cli {
    pub command: Option<Command>,
}

/// A subcommand.
#[derive(Debug)]
pub enum Command {
    /// Open the GUI (the default).
    Run,
    /// Print the current VPN state and exit.
    Status,
    /// Import WireGuard/OpenVPN config files as NetworkManager connections.
    Import {
        /// Paths to the config files (one or more).
        paths: Vec<String>,
        /// Connection name; only valid when importing a single file.
        name: Option<String>,
    },
}

impl Cli {
    /// The subcommand to run: the one given, else `Run`.
    pub fn into_command(self) -> (c: Command)
        ensures
            self.command is Some ==> c == self.command->0,
            self.command is None ==> c is Run,
    {
        match self.command {
            Some(c) => c,
            None => Command::Run,
        }
    }
}

/// `--name` names one connection, so it cannot go with several files.
pub fn check_import_request(name_given: bool, file_count: usize) -> (r: Result<(), String>)
    ensures
        name_given && file_count > 1 ==> (r matches Err(m) && m@
            == "--name only makes sense when importing a single file"@),
        !(name_given && file_count > 1) ==> r is Ok,
{
    if name_given && file_count > 1 {
        Err("--name only makes sense when importing a single file".to_owned())
    } else {
        Ok(())
    }
}

/// The error of an import run where `failed` of `total` files failed.
pub fn import_failures(failed: usize, total: usize) -> (r: Option<String>)
    ensures
        failed == 0 ==> r is None,
        failed > 0 ==> (r matches Some(m) && m@ == decimal(failed as nat) + " of "@ + decimal(
            total as nat,
        ) + " imports failed"@),
{
    if failed == 0 {
        return None;
    }
    let f = decimal_string(failed as u64);
    let t = decimal_string(total as u64);
    let mut m = concat(f.as_str(), " of ");
    m.append(t.as_str());
    m.append(" imports failed");
    Some(m)
}

/// The error of a file whose format could not be identified.
pub fn unidentified_config(path: &str, err: &str) -> (s: String)
    ensures
        s@ == "could not identify "@ + path@ + ": "@ + err@,
{
    let mut s = concat("could not identify ", path);
    s.append(": ");
    s.append(err);
    s
}

/// The line printed for a file that failed to import.
pub fn import_error_line(path: &str, err: &str) -> (s: String)
    ensures
        s@ == "✗ "@ + path@ + ": "@ + err@,
{
    let mut s = concat("✗ ", path);
    s.append(": ");
    s.append(err);
    s
}

/// The line printed after importing `name`.
pub fn import_done_line(name: &str, kind: ConfigKind) -> (s: String)
    ensures
        s@ == "✓ imported `"@ + name@ + "` ("@ + config_kind_name(kind) + ")"@,
{
    let mut s = concat("✓ imported `", name);
    s.append("` (");
    s.append(kind.as_str());
    s.append(")");
    s
}

/// The reminder printed after importing a config that uses
/// `auth-user-pass`: NetworkManager does not take the credentials from the
/// file, they are set on the connection `name`.
pub fn auth_user_pass_hint(name: &str) -> (lines: Vec<String>)
    ensures
        string_views(lines@) == seq![
            "This config uses `auth-user-pass`. Set credentials before activating:"@,
            "  nmcli connection modify "@ + name@ + " vpn.user-name '<username>'"@,
            "  nmcli connection modify "@ + name@ + " +vpn.data password-flags=0"@,
            "  nmcli connection modify "@ + name@ + " vpn.secrets password='<password>'"@,
        ],
{
    let mut lines: Vec<String> = Vec::new();
    lines.push("This config uses `auth-user-pass`. Set credentials before activating:".to_owned());
    let mut a = concat("  nmcli connection modify ", name);
    a.append(" vpn.user-name '<username>'");
    lines.push(a);
    let mut b = concat("  nmcli connection modify ", name);
    b.append(" +vpn.data password-flags=0");
    lines.push(b);
    let mut c = concat("  nmcli connection modify ", name);
    c.append(" vpn.secrets password='<password>'");
    lines.push(c);
    assert(string_views(lines@) =~= seq![
        "This config uses `auth-user-pass`. Set credentials before activating:"@,
        "  nmcli connection modify "@ + name@ + " vpn.user-name '<username>'"@,
        "  nmcli connection modify "@ + name@ + " +vpn.data password-flags=0"@,
        "  nmcli connection modify "@ + name@ + " vpn.secrets password='<password>'"@,
    ]);
    lines
}

} // verus!
