//! The library's error type.
use vstd::prelude::*;

use crate::text::{concat, signed_decimal, signed_decimal_string};

verus! {

/// Everything that can go wrong while talking to the VPN backends or reading
/// a config file. Errors that carry an outside error value are held by their
/// message.
#[derive(Debug, Clone)]
pub enum Error {
    /// A D-Bus call failed; the payload is the D-Bus error's message.
    DBus(String),
    DBusValue(String),
    /// A required executable is not installed; the payload is its name.
    MissingExecutable(String),
    CommandFailed { cmd: String, status: i32, stderr: String },
    InvalidConfig { path: String, context: String },
    NotFound(String),
    SecretsRequired { name: String },
    Unavailable { kind: String },
    AlreadyRunning,
    /// An I/O operation failed; the payload is the I/O error's message.
    Io(String),
    /// JSON decoding failed; the payload is the decoder's message.
    Json(String),
    CannotDelete { kind: String },
    TailscaleNeedsLogin,
}


/// The message shown for an error.
pub open spec fn error_message(e: Error) -> Seq<char> {
    match e {
        Error::DBus(m) => "D-Bus error: "@ + m@,
        Error::DBusValue(m) => "D-Bus value conversion failed: "@ + m@,
        Error::MissingExecutable(n) => "required executable not found: `"@ + n@
            + "`. Is it installed and on PATH?"@,
        Error::CommandFailed { cmd, status, stderr } => "`"@ + cmd@ + "` exited with status "@
            + signed_decimal(status as int) + ": "@ + stderr@,
        Error::InvalidConfig { path, context } => "invalid config at "@ + path@ + ": "@ + context@,
        Error::NotFound(n) => "connection `"@ + n@ + "` not found"@,
        Error::SecretsRequired { name } => "activation needs secrets that aren't stored. Set them with:\n  nmcli connection modify '"@
            + name@ + "' vpn.user-name '<username>'\n  nmcli connection modify '"@ + name@
            + "' +vpn.data password-flags=0\n  nmcli connection modify '"@ + name@
            + "' vpn.secrets password='<password>'"@,
        Error::Unavailable { kind } => kind@ + " backend is not available on this system"@,
        Error::AlreadyRunning => "another instance is already running"@,
        Error::Io(m) => "i/o error: "@ + m@,
        Error::Json(m) => "json error: "@ + m@,
        Error::CannotDelete { kind } => kind@ + " connections cannot be deleted from byt"@,
        Error::TailscaleNeedsLogin => "tailscale is logged out; run `tailscale up` in a terminal to authenticate"@,
    }
}

impl Error {
    /// The message shown for this error.
    pub fn message(&self) -> (m: String)
        ensures
            m@ == error_message(*self),
    {
        match self {
            Error::DBus(m) => concat("D-Bus error: ", m.as_str()),
            Error::DBusValue(m) => concat("D-Bus value conversion failed: ", m.as_str()),
            Error::MissingExecutable(n) => {
                let mut r = concat("required executable not found: `", n.as_str());
                r.append("`. Is it installed and on PATH?");
                r
            },
            Error::CommandFailed { cmd, status, stderr } => {
                let mut r = concat("`", cmd.as_str());
                r.append("` exited with status ");
                let code = signed_decimal_string(*status as i64);
                r.append(code.as_str());
                r.append(": ");
                r.append(stderr.as_str());
                r
            },
            Error::InvalidConfig { path, context } => {
                let mut r = concat("invalid config at ", path.as_str());
                r.append(": ");
                r.append(context.as_str());
                r
            },
            Error::NotFound(n) => {
                let mut r = concat("connection `", n.as_str());
                r.append("` not found");
                r
            },
            Error::SecretsRequired { name } => {
                let mut r = concat(
                    "activation needs secrets that aren't stored. Set them with:\n  nmcli connection modify '",
                    name.as_str(),
                );
                r.append("' vpn.user-name '<username>'\n  nmcli connection modify '");
                r.append(name.as_str());
                r.append("' +vpn.data password-flags=0\n  nmcli connection modify '");
                r.append(name.as_str());
                r.append("' vpn.secrets password='<password>'");
                r
            },
            Error::Unavailable { kind } => concat(kind.as_str(), " backend is not available on this system"),
            Error::AlreadyRunning => "another instance is already running".to_owned(),
            Error::Io(m) => concat("i/o error: ", m.as_str()),
            Error::Json(m) => concat("json error: ", m.as_str()),
            Error::CannotDelete { kind } => concat(kind.as_str(), " connections cannot be deleted from byt"),
            Error::TailscaleNeedsLogin => "tailscale is logged out; run `tailscale up` in a terminal to authenticate".to_owned(),
        }
    }
}

} // verus!
