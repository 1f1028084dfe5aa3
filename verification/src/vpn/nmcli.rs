//! `nmcli` output and command lines. `nmcli` is invoked with
//! `--terse --fields …` so that its output is machine-parseable:
//! colon-separated, no headers.
use vstd::prelude::*;

use crate::error::Error;
use crate::text::{
    chars_of, decimal_string, eq_str, join, last_index_of, lines, lines_chars, rfind_char,
    string_views, trim, trim_chars, views,
};
use crate::vpn::{Connection, ConnectionState, ConnectionView, VpnKind, connection_views};

verus! {

/// A `NAME:TYPE` line of `nmcli -t`: split at the last colon (the type never
/// holds one). Blank lines and lines without a colon give nothing.
pub open spec fn name_type(line: Seq<char>) -> Option<(Seq<char>, Seq<char>)> {
    if line.len() == 0 {
        None
    } else {
        match last_index_of(line, ':') {
            Some(i) => Some((line.take(i), line.skip(i + 1))),
            None => None,
        }
    }
}

/// Parses a `NAME:TYPE` line from `nmcli -t`.
///
/// nmcli's terse format escapes `:` as `\:`; splitting at the final `:` is
/// enough here because the type is one of a small fixed set with no `:` in
/// it.
pub fn parse_name_type(line: &str) -> (r: Option<(&str, &str)>)
    ensures
        r matches Some((n, t)) ==> name_type(line@) == Some((n@, t@)),
        r is None ==> name_type(line@) is None,
{
    let chars = chars_of(line);
    let n = chars.len();
    if n == 0 {
        return None;
    }
    match rfind_char(&chars, ':') {
        Some(idx) => {
            proof {
                crate::text::lemma_last_index_of(line@, ':');
            }
            let name = line.substring_char(0, idx);
            let kind = line.substring_char(idx + 1, n);
            assert(name@ =~= line@.take(idx as int));
            assert(kind@ =~= line@.skip(idx + 1));
            Some((name, kind))
        },
        None => None,
    }
}

/// The name on a line, if the line lists a WireGuard connection.
pub open spec fn wireguard_name(line: Seq<char>) -> Option<Seq<char>> {
    match name_type(line) {
        Some((name, kind)) => if kind == "wireguard"@ {
            Some(name)
        } else {
            None
        },
        None => None,
    }
}

/// The WireGuard connection names listed by `lines`, in order.
pub open spec fn wireguard_names(ls: Seq<Seq<char>>) -> Seq<Seq<char>>
    decreases ls.len(),
{
    if ls.len() == 0 {
        Seq::empty()
    } else {
        let names = wireguard_names(ls.drop_last());
        match wireguard_name(ls.last()) {
            Some(n) => names.push(n),
            None => names,
        }
    }
}

/// The WireGuard connections in the output `all` of
/// `nmcli -t -f NAME,TYPE connection show`, each active exactly when its name
/// is listed as WireGuard in the output `active` of the same command with
/// `--active`.
pub open spec fn wireguard_listing(all: Seq<char>, active: Seq<char>) -> Seq<ConnectionView> {
    wireguard_names(lines(all)).map_values(
        |name: Seq<char>|
            ConnectionView {
                name,
                kind: VpnKind::WireGuard,
                state: if wireguard_names(lines(active)).contains(name) {
                    ConnectionState::Active
                } else {
                    ConnectionState::Inactive
                },
                detail: None,
            },
    )
}

/// The WireGuard names listed in `text`.
fn wireguard_names_in(text: &str) -> (r: Vec<String>)
    ensures
        string_views(r@) == wireguard_names(lines(text@)),
{
    let chars = chars_of(text);
    let ls = lines_chars(&chars);
    let mut names: Vec<String> = Vec::new();
    assert(views(ls@).take(0) =~= Seq::<Seq<char>>::empty());
    for i in 0..ls.len()
        invariant
            string_views(names@) == wireguard_names(views(ls@).take(i as int)),
    {
        let line = crate::text::string_of(&ls[i]);
        assert(views(ls@).take(i + 1).drop_last() =~= views(ls@).take(i as int));
        assert(views(ls@).take(i + 1).last() == line@);
        match parse_name_type(line.as_str()) {
            Some((name, kind)) => {
                if eq_str(&chars_of(kind), "wireguard") {
                    let ghost before = string_views(names@);
                    names.push(name.to_owned());
                    assert(string_views(names@) =~= before.push(name@));
                }
            },
            None => {},
        }
    }
    assert(views(ls@).take(ls.len() as int) =~= views(ls@));
    names
}

fn contains_name(names: &Vec<String>, name: &String) -> (b: bool)
    ensures
        b == string_views(names@).contains(name@),
{
    for i in 0..names.len()
        invariant
            forall|k: int| 0 <= k < i ==> #[trigger] string_views(names@)[k] != name@,
    {
        assert(string_views(names@)[i as int] == names@[i as int]@);
        if names[i] == *name {
            return true;
        }
    }
    false
}

/// The WireGuard connections NetworkManager knows, from the outputs of
/// `nmcli -t -f NAME,TYPE connection show` (`all`) and the same with
/// `--active` (`active`).
pub fn wireguard_connections_from(all: &str, active: &str) -> (r: Vec<Connection>)
    ensures
        connection_views(r@) == wireguard_listing(all@, active@),
{
    let names = wireguard_names_in(all);
    let active_names = wireguard_names_in(active);
    let ghost target = wireguard_listing(all@, active@);
    let mut out: Vec<Connection> = Vec::new();
    for i in 0..names.len()
        invariant
            string_views(names@) == wireguard_names(lines(all@)),
            string_views(active_names@) == wireguard_names(lines(active@)),
            target == wireguard_listing(all@, active@),
            connection_views(out@) == target.take(i as int),
    {
        let name = names[i].clone();
        assert(string_views(names@)[i as int] == name@);
        let state = if contains_name(&active_names, &name) {
            ConnectionState::Active
        } else {
            ConnectionState::Inactive
        };
        let c = Connection { name, kind: VpnKind::WireGuard, state, detail: None };
        assert(wireguard_names(lines(all@))[i as int] == name@);
        assert(target[i as int] == c@);
        let ghost before = connection_views(out@);
        out.push(c);
        assert(connection_views(out@) =~= before.push(c@));
        assert(target.len() == names@.len());
        assert(target.take(i + 1) =~= target.take(i as int).push(target[i as int]));
    }
    assert(target.take(names.len() as int) =~= target);
    out
}

/// The error for a command `program args…` that exited with `status`
/// (`-1` where it has none, i.e. it was killed by a signal) and wrote
/// `stderr`.
pub fn command_failed(program: &str, args: &Vec<String>, status: Option<i32>, stderr: &str) -> (e: Error)
    ensures
        e matches Error::CommandFailed { cmd, status: s, stderr: msg } && cmd@ == program@ + " "@
            + join(string_views(args@), " "@) && s == (match status {
            Some(code) => code as int,
            None => -1int,
        }) && msg@ == trim(stderr@),
{
    let mut cmd = program.to_owned();
    cmd.append(" ");
    let joined = crate::text::join_strings(args, " ");
    cmd.append(joined.as_str());
    let code = match status {
        Some(c) => c,
        None => -1,
    };
    let msg = crate::text::string_of(&trim_chars(&chars_of(stderr)));
    Error::CommandFailed { cmd, status: code, stderr: msg }
}

/// The arguments of `nmcli connection up <name>`.
pub fn connection_up_args(name: &str) -> (args: Vec<String>)
    ensures
        string_views(args@) == seq!["connection"@, "up"@, name@],
{
    let mut args: Vec<String> = Vec::new();
    args.push("connection".to_owned());
    args.push("up".to_owned());
    args.push(name.to_owned());
    assert(string_views(args@) =~= seq!["connection"@, "up"@, name@]);
    args
}

/// The arguments of `nmcli connection down <name>`.
pub fn connection_down_args(name: &str) -> (args: Vec<String>)
    ensures
        string_views(args@) == seq!["connection"@, "down"@, name@],
{
    let mut args: Vec<String> = Vec::new();
    args.push("connection".to_owned());
    args.push("down".to_owned());
    args.push(name.to_owned());
    assert(string_views(args@) =~= seq!["connection"@, "down"@, name@]);
    args
}

} // verus!
