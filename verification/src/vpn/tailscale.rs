//! Tailscale: what its state means for the connection list, and how to bring
//! it up.
//!
//! `tailscaled.service` being active only means that the daemon runs; on most
//! installs it runs from boot. Whether the VPN is up is the daemon's backend
//! state as `tailscale status --json` reports it: `tailscale down`, a fresh
//! install and a logged-out node all leave the daemon active with a state
//! other than `Running`.
use vstd::prelude::*;

use crate::error::Error;
use crate::text::{chars_of, contains_seq, contains_str, eq_str, trim, trim_chars, string_of};
use crate::vpn::wireguard::opt_view;
use crate::vpn::{Connection, ConnectionState, ConnectionView, VpnKind};

verus! {

/// The two fields of `tailscale status --json` that matter.
#[derive(Debug, Clone)]
pub struct BackendStatus {
    /// `BackendState`: `Running`, `Stopped`, `NeedsLogin`, …
    pub backend_state: String,
    /// `MagicDNSSuffix`, the tailnet's domain.
    pub magic_dns_suffix: Option<String>,
}

pub open spec fn needs_login(state: Seq<char>) -> bool {
    state == "NeedsLogin"@ || state == "NeedsMachineAuth"@
}

/// The Tailscale row of the connection list. `installed`: the `tailscale`
/// executable is on `PATH`; `unit_active`: `tailscaled.service` is active;
/// `status`: what `tailscale status --json` reported (`None` where it was not
/// asked or failed).
pub open spec fn tailscale_row(installed: bool, unit_active: bool, status: Option<BackendStatus>) -> ConnectionView {
    let (state, detail) = if !installed {
        (ConnectionState::Unavailable, Some("not installed"@))
    } else if !unit_active {
        (ConnectionState::Inactive, None)
    } else {
        match status {
            Some(st) => if st.backend_state@ == "Running"@ {
                (ConnectionState::Active, opt_view(st.magic_dns_suffix))
            } else if needs_login(st.backend_state@) {
                (ConnectionState::Inactive, Some("logged out — run `tailscale up`"@))
            } else {
                (ConnectionState::Inactive, None)
            },
            None => (ConnectionState::Inactive, None),
        }
    };
    ConnectionView { name: "Tailscale"@, kind: VpnKind::Tailscale, state, detail }
}

/// The Tailscale row shows Tailscale active exactly when it is installed,
/// its daemon runs and the daemon reports the backend state `Running`; it is
/// unavailable exactly when it is not installed, and inactive otherwise.
pub proof fn law_tailscale_active_only_when_running(
    installed: bool,
    unit_active: bool,
    status: Option<BackendStatus>,
)
    ensures
        (tailscale_row(installed, unit_active, status).state == ConnectionState::Active) <==> (
        installed && unit_active && status is Some && status->0.backend_state@ == "Running"@),
        (tailscale_row(installed, unit_active, status).state == ConnectionState::Unavailable)
            <==> !installed,
        tailscale_row(installed, unit_active, status).name == "Tailscale"@,
        tailscale_row(installed, unit_active, status).kind == VpnKind::Tailscale,
{
}

/// The Tailscale row of the connection list.
pub fn status_connection(installed: bool, unit_active: bool, status: Option<BackendStatus>) -> (c: Connection)
    ensures
        c@ == tailscale_row(installed, unit_active, status),
{
    let ghost st = status;
    let (state, detail) = if !installed {
        (ConnectionState::Unavailable, Some("not installed".to_owned()))
    } else if !unit_active {
        (ConnectionState::Inactive, None)
    } else {
        match status {
            Some(s) => {
                let b = chars_of(s.backend_state.as_str());
                if eq_str(&b, "Running") {
                    (ConnectionState::Active, s.magic_dns_suffix)
                } else if eq_str(&b, "NeedsLogin") || eq_str(&b, "NeedsMachineAuth") {
                    (ConnectionState::Inactive, Some("logged out — run `tailscale up`".to_owned()))
                } else {
                    (ConnectionState::Inactive, None)
                }
            },
            None => (ConnectionState::Inactive, None),
        }
    };
    Connection { name: "Tailscale".to_owned(), kind: VpnKind::Tailscale, state, detail }
}

/// A systemd unit whose `ActiveState` is `state` is running.
pub fn is_active_state(state: &str) -> (b: bool)
    ensures
        b == (state@ == "active"@),
{
    eq_str(&chars_of(state), "active")
}

/// How to bring Tailscale up.
#[derive(Debug, Clone, Copy, PartialEq, Eq, Structural)]
pub enum StartStep {
    /// The daemon is down (as stopping Tailscale leaves it): start the unit;
    /// its saved preferences bring the node back up.
    StartUnit,
    /// Already up: nothing to do.
    AlreadyRunning,
    /// The daemon runs but the node is down: `tailscale up`.
    RunUp,
}

/// The first step of starting Tailscale. `unit_active`: `tailscaled.service`
/// is active; `backend_state`: what `tailscale status --json` reported, asked
/// only while the unit is active (`None` where the query failed).
pub fn start_step(unit_active: bool, backend_state: Option<&str>) -> (r: Result<StartStep, Error>)
    ensures
        !unit_active ==> r == Ok::<StartStep, Error>(StartStep::StartUnit),
        unit_active && backend_state is None ==> r == Ok::<StartStep, Error>(StartStep::RunUp),
        unit_active && backend_state is Some ==> ({
            let s = backend_state->0@;
            if s == "Running"@ {
                r == Ok::<StartStep, Error>(StartStep::AlreadyRunning)
            } else if needs_login(s) {
                r matches Err(Error::TailscaleNeedsLogin)
            } else {
                r == Ok::<StartStep, Error>(StartStep::RunUp)
            }
        }),
{
    if !unit_active {
        return Ok(StartStep::StartUnit);
    }
    match backend_state {
        Some(s) => {
            let b = chars_of(s);
            if eq_str(&b, "Running") {
                Ok(StartStep::AlreadyRunning)
            } else if eq_str(&b, "NeedsLogin") || eq_str(&b, "NeedsMachineAuth") {
                Err(Error::TailscaleNeedsLogin)
            } else {
                Ok(StartStep::RunUp)
            }
        },
        None => Ok(StartStep::RunUp),
    }
}

/// How long `tailscale up` may run, in seconds.
pub const UP_TIMEOUT_SECS: u64 = 15;

pub open spec fn up_hint() -> Seq<char> {
    "\nhint: grant yourself operator rights: sudo tailscale set --operator=$USER"@
}

/// The error for a `tailscale up` that exited with `status` (`-1` where it
/// has none) and wrote `stderr`; a permission problem gets a hint.
pub fn up_failure(status: Option<i32>, stderr: &str) -> (e: Error)
    ensures
        e matches Error::CommandFailed { cmd, status: s, stderr: msg } && cmd@ == "tailscale up"@
            && s == (match status {
            Some(code) => code as int,
            None => -1int,
        }) && msg@ == (if contains_seq(trim(stderr@), "Access denied"@) {
            trim(stderr@) + up_hint()
        } else {
            trim(stderr@)
        }),
{
    let trimmed = trim_chars(&chars_of(stderr));
    let mut msg = string_of(&trimmed);
    if contains_str(&trimmed, "Access denied") {
        msg.append("\nhint: grant yourself operator rights: sudo tailscale set --operator=$USER");
    }
    let code = match status {
        Some(c) => c,
        None => -1,
    };
    Error::CommandFailed { cmd: "tailscale up".to_owned(), status: code, stderr: msg }
}

/// The error for a `tailscale up` that ran out of time.
pub fn up_timed_out() -> (e: Error)
    ensures
        e matches Error::CommandFailed { cmd, status, stderr } && cmd@ == "tailscale up"@ && status
            == -1 && stderr@ == "timed out after 15s"@,
{
    Error::CommandFailed {
        cmd: "tailscale up".to_owned(),
        status: -1,
        stderr: "timed out after 15s".to_owned(),
    }
}

} // verus!
