//! Importing config files with `nmcli connection import`: which format a
//! file is, the name it imports as, and the `nmcli` calls that import it.
use vstd::prelude::*;

use crate::error::Error;
use crate::path::{file_stem, file_stem_of};
use crate::text::string_views;
use crate::vpn::openvpn::{self, ovpn_result};
use crate::vpn::wireguard::{self, wg_has_section};
use crate::vpn::{ConfigKind, config_kind_name};

verus! {

/// The format of the file at `path` with contents `raw`: WireGuard if it has
/// an `[Interface]` or `[Peer]` section, else OpenVPN if it holds a
/// directive or an inline block, else neither.
pub open spec fn config_kind_of(path: Seq<char>, raw: Seq<char>) -> Option<ConfigKind> {
    if wg_has_section(raw) {
        Some(ConfigKind::WireGuard)
    } else if ovpn_result(path, raw).saw_any {
        Some(ConfigKind::OpenVpn)
    } else {
        None
    }
}

/// Identifies the format of the config at `path` from its contents `raw`.
pub fn detect_config_kind(path: &str, raw: &str) -> (r: Result<ConfigKind, Error>)
    ensures
        r matches Ok(k) ==> config_kind_of(path@, raw@) == Some(k),
        r matches Err(e) ==> config_kind_of(path@, raw@) is None && (e matches Error::InvalidConfig {
            path: p,
            context: c,
        } && p@ == path@ && c@ == "not a WireGuard or OpenVPN config"@),
{
    if wireguard::parse_conf(path, raw).is_ok() {
        return Ok(ConfigKind::WireGuard);
    }
    if openvpn::parse_conf(path, raw).is_ok() {
        return Ok(ConfigKind::OpenVpn);
    }
    Err(
        Error::InvalidConfig {
            path: path.to_owned(),
            context: "not a WireGuard or OpenVPN config".to_owned(),
        },
    )
}

/// The name a file imports as: its file stem, or `fallback` where the path
/// has none.
pub open spec fn stem_or(path: Seq<char>, fallback: Seq<char>) -> Seq<char> {
    match file_stem_of(path) {
        Some(stem) => stem,
        None => fallback,
    }
}

/// The format of the config at `path` (contents `raw`) and the connection
/// name it would import as (the file stem, for both formats).
pub fn preview_name(path: &str, raw: &str) -> (r: Result<(ConfigKind, String), Error>)
    ensures
        r matches Ok((k, name)) ==> config_kind_of(path@, raw@) == Some(k) && name@ == stem_or(
            path@,
            config_kind_name(k),
        ),
        r matches Err(e) ==> config_kind_of(path@, raw@) is None && (e matches Error::InvalidConfig {
            path: p,
            context: c,
        } && p@ == path@ && c@ == "not a WireGuard or OpenVPN config"@),
{
    let kind = match detect_config_kind(path, raw) {
        Ok(k) => k,
        Err(e) => return Err(e),
    };
    let name = match kind {
        ConfigKind::WireGuard => match wireguard::parse_conf(path, raw) {
            Ok(p) => {
                assert(p.source@ == path@);
                p.suggested_name()
            },
            Err(e) => return Err(e),
        },
        ConfigKind::OpenVpn => match openvpn::parse_conf(path, raw) {
            Ok(p) => {
                assert(p.source@ == path@);
                p.suggested_name()
            },
            Err(e) => return Err(e),
        },
    };
    Ok((kind, name))
}

/// One `nmcli` call of an import.
pub struct NmcliStep {
    /// The arguments after `nmcli`.
    pub args: Vec<String>,
    /// A failure ends the import with an error; otherwise it is ignored.
    pub must_succeed: bool,
}

pub struct NmcliStepView {
    pub args: Seq<Seq<char>>,
    pub must_succeed: bool,
}

impl View for NmcliStep {
    type V = NmcliStepView;

    open spec fn view(&self) -> NmcliStepView {
        NmcliStepView { args: string_views(self.args@), must_succeed: self.must_succeed }
    }
}

pub open spec fn step_views(s: Seq<NmcliStep>) -> Seq<NmcliStepView> {
    s.map_values(|x: NmcliStep| x@)
}

/// `nmcli connection import type <plugin> file <path>`.
pub open spec fn import_call(plugin: Seq<char>, path: Seq<char>) -> NmcliStepView {
    NmcliStepView {
        args: seq!["connection"@, "import"@, "type"@, plugin, "file"@, path],
        must_succeed: true,
    }
}

/// The calls that import `path` under the name `desired`: import it (nmcli
/// names it after the file stem), rename it if that name is not `desired`.
pub open spec fn import_and_rename(plugin: Seq<char>, path: Seq<char>, desired: Seq<char>) -> Seq<NmcliStepView> {
    let imported = stem_or(path, desired);
    seq![import_call(plugin, path)] + if imported != desired {
        seq![
            NmcliStepView {
                args: seq!["connection"@, "modify"@, imported, "connection.id"@, desired],
                must_succeed: true,
            },
        ]
    } else {
        Seq::empty()
    }
}

/// Importing `path` as a connection named `desired`: import and rename, turn
/// autoconnect off, and bring the new connection down (a failure of that
/// last call is ignored).
pub open spec fn import_plan(kind: ConfigKind, path: Seq<char>, desired: Seq<char>) -> Seq<NmcliStepView> {
    import_and_rename(config_kind_name(kind), path, desired) + seq![
        NmcliStepView {
            args: seq!["connection"@, "modify"@, desired, "connection.autoconnect"@, "no"@],
            must_succeed: true,
        },
        NmcliStepView { args: seq!["connection"@, "down"@, desired], must_succeed: false },
    ]
}

fn step(parts: Vec<&str>, must_succeed: bool) -> (s: NmcliStep)
    ensures
        s@.args == parts@.map_values(|p: &str| p@),
        s@.must_succeed == must_succeed,
{
    let mut args: Vec<String> = Vec::new();
    for i in 0..parts.len()
        invariant
            string_views(args@) == parts@.take(i as int).map_values(|p: &str| p@),
    {
        let ghost before = string_views(args@);
        let a: String = parts[i].to_owned();
        assert(a@ == parts@[i as int]@);
        args.push(a);
        assert(string_views(args@) =~= before.push(a@));
        assert(parts@.take(i + 1) =~= parts@.take(i as int).push(parts@[i as int]));
        assert(parts@.take(i + 1).map_values(|p: &str| p@) =~= parts@.take(i as int).map_values(
            |p: &str| p@,
        ).push(parts@[i as int]@));
    }
    assert(parts@.take(parts.len() as int) =~= parts@);
    NmcliStep { args, must_succeed }
}

/// The import and rename calls, as exec values.
fn import_and_rename_steps(plugin: &str, path: &str, desired: &str) -> (r: Vec<NmcliStep>)
    ensures
        step_views(r@) == import_and_rename(plugin@, path@, desired@),
{
    let mut steps: Vec<NmcliStep> = Vec::new();
    let first = step(vec!["connection", "import", "type", plugin, "file", path], true);
    assert(first@ == import_call(plugin@, path@)) by {
        assert(first@.args =~= seq!["connection"@, "import"@, "type"@, plugin@, "file"@, path@]);
    }
    steps.push(first);
    let imported = match file_stem(path) {
        Some(stem) => stem,
        None => desired.to_owned(),
    };
    let differs = !(imported == desired.to_owned());
    if differs {
        let rename = step(
            vec!["connection", "modify", imported.as_str(), "connection.id", desired],
            true,
        );
        assert(rename@.args =~= seq!["connection"@, "modify"@, imported@, "connection.id"@, desired@]);
        steps.push(rename);
    }
    assert(step_views(steps@) =~= import_and_rename(plugin@, path@, desired@));
    steps
}

/// The `nmcli` calls that import the config at `path` as a connection named
/// `desired`.
pub fn import_steps(kind: ConfigKind, path: &str, desired: &str) -> (r: Vec<NmcliStep>)
    ensures
        step_views(r@) == import_plan(kind, path@, desired@),
{
    let mut steps = import_and_rename_steps(kind.as_str(), path, desired);
    let ghost head = step_views(steps@);
    let autoconnect = step(
        vec!["connection", "modify", desired, "connection.autoconnect", "no"],
        true,
    );
    assert(autoconnect@.args =~= seq!["connection"@, "modify"@, desired@, "connection.autoconnect"@, "no"@]);
    steps.push(autoconnect);
    let down = step(vec!["connection", "down", desired], false);
    assert(down@.args =~= seq!["connection"@, "down"@, desired@]);
    steps.push(down);
    assert(step_views(steps@) =~= import_plan(kind, path@, desired@));
    steps
}

/// The `nmcli` calls that import a WireGuard `.conf` as a connection named
/// `desired` (nmcli names it after the file stem; a different `desired` name
/// is set with a second call).
pub fn import_wireguard_steps(path: &str, desired: &str) -> (r: Vec<NmcliStep>)
    ensures
        step_views(r@) == import_and_rename("wireguard"@, path@, desired@),
{
    import_and_rename_steps("wireguard", path, desired)
}

} // verus!
