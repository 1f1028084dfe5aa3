//! NetworkManager's saved connections, as read over D-Bus.
//!
//! A connection's settings are `a{sa{sv}}`: outer keys are setting groups
//! ("connection", "wireguard", "vpn", …), inner keys are fields. Only three
//! fields matter here: `connection.id`, `connection.type` and
//! `vpn.service-type`; the D-Bus layer hands them over as text.
use vstd::prelude::*;

use crate::error::Error;
use crate::text::{chars_of, contains_seq, contains_str, ends_with, ends_with_str, eq_str, string_views};
use crate::vpn::wireguard::opt_view;
use crate::vpn::{Connection, ConnectionState, ConnectionView, VpnKind, connection_views};

verus! {

/// The backend a saved connection belongs to: `wireguard` connections are
/// WireGuard, `vpn` connections whose service type ends in `.openvpn` are
/// OpenVPN; nothing else is a VPN this program handles.
pub open spec fn classify_spec(conn_type: Option<Seq<char>>, service_type: Option<Seq<char>>) -> Option<VpnKind> {
    match conn_type {
        Some(t) => if t == "wireguard"@ {
            Some(VpnKind::WireGuard)
        } else if t == "vpn"@ {
            match service_type {
                Some(svc) => if ends_with(svc, ".openvpn"@) {
                    Some(VpnKind::OpenVpn)
                } else {
                    None
                },
                None => None,
            }
        } else {
            None
        },
        None => None,
    }
}

/// Classifies a saved connection by its `connection.type` and
/// `vpn.service-type` settings.
pub fn classify(conn_type: Option<&str>, service_type: Option<&str>) -> (k: Option<VpnKind>)
    ensures
        k == classify_spec(
            match conn_type {
                Some(t) => Some(t@),
                None => None,
            },
            match service_type {
                Some(s) => Some(s@),
                None => None,
            },
        ),
{
    let t = match conn_type {
        Some(t) => chars_of(t),
        None => return None,
    };
    if eq_str(&t, "wireguard") {
        Some(VpnKind::WireGuard)
    } else if eq_str(&t, "vpn") {
        match service_type {
            Some(svc) => if ends_with_str(&chars_of(svc), ".openvpn") {
                Some(VpnKind::OpenVpn)
            } else {
                None
            },
            None => None,
        }
    } else {
        None
    }
}

/// The fields of one saved connection that the listing reads.
#[derive(Debug, Clone)]
pub struct SavedConnection {
    /// `connection.id`, where it is a string.
    pub id: Option<String>,
    /// `connection.type`, where it is a string.
    pub conn_type: Option<String>,
    /// `vpn.service-type`, where it is a string.
    pub service_type: Option<String>,
    /// One of NetworkManager's active connections is this one.
    pub active: bool,
}

pub struct SavedConnectionView {
    pub id: Option<Seq<char>>,
    pub conn_type: Option<Seq<char>>,
    pub service_type: Option<Seq<char>>,
    pub active: bool,
}

impl View for SavedConnection {
    type V = SavedConnectionView;

    open spec fn view(&self) -> SavedConnectionView {
        SavedConnectionView {
            id: opt_view(self.id),
            conn_type: opt_view(self.conn_type),
            service_type: opt_view(self.service_type),
            active: self.active,
        }
    }
}

pub open spec fn saved_views(s: Seq<SavedConnection>) -> Seq<SavedConnectionView> {
    s.map_values(|c: SavedConnection| c@)
}

/// The VPN connections among `saved`, in order; `None` when one of them has
/// no `connection.id`.
pub open spec fn vpn_listing(saved: Seq<SavedConnectionView>) -> Option<Seq<ConnectionView>>
    decreases saved.len(),
{
    if saved.len() == 0 {
        Some(Seq::empty())
    } else {
        match vpn_listing(saved.drop_last()) {
            None => None,
            Some(listed) => {
                let c = saved.last();
                match classify_spec(c.conn_type, c.service_type) {
                    None => Some(listed),
                    Some(kind) => match c.id {
                        None => None,
                        Some(id) => Some(
                            listed.push(
                                ConnectionView {
                                    name: id,
                                    kind,
                                    state: if c.active {
                                        ConnectionState::Active
                                    } else {
                                        ConnectionState::Inactive
                                    },
                                    detail: None,
                                },
                            ),
                        ),
                    },
                }
            },
        }
    }
}

/// Every WireGuard or OpenVPN connection among NetworkManager's saved
/// connections, with its state.
pub fn vpn_connections(saved: &Vec<SavedConnection>) -> (r: Result<Vec<Connection>, Error>)
    ensures
        r matches Ok(v) ==> vpn_listing(saved_views(saved@)) == Some(connection_views(v@)),
        r matches Err(e) ==> vpn_listing(saved_views(saved@)) is None && (e matches Error::DBusValue(
            msg,
        ) && msg@ == "connection without a `connection.id`"@),
{
    let mut out: Vec<Connection> = Vec::new();
    assert(saved_views(saved@).take(0) =~= Seq::<SavedConnectionView>::empty());
    assert(connection_views(out@) =~= Seq::<ConnectionView>::empty());
    for i in 0..saved.len()
        invariant
            vpn_listing(saved_views(saved@).take(i as int)) == Some(connection_views(out@)),
    {
        let c = &saved[i];
        let ghost sv = saved_views(saved@);
        assert(sv.take(i + 1).drop_last() =~= sv.take(i as int));
        assert(sv.take(i + 1).last() == c@);
        let conn_type = match &c.conn_type {
            Some(t) => Some(t.as_str()),
            None => None,
        };
        let service_type = match &c.service_type {
            Some(s) => Some(s.as_str()),
            None => None,
        };
        match classify(conn_type, service_type) {
            None => {},
            Some(kind) => {
                let id = match &c.id {
                    Some(id) => id.clone(),
                    None => {
                        proof {
                            lemma_listing_stays_none(sv, i as int + 1);
                        }
                        return Err(Error::DBusValue("connection without a `connection.id`".to_owned()));
                    },
                };
                let state = if c.active {
                    ConnectionState::Active
                } else {
                    ConnectionState::Inactive
                };
                let ghost before = connection_views(out@);
                let conn = Connection { name: id, kind, state, detail: None };
                out.push(conn);
                assert(connection_views(out@) =~= before.push(conn@));
            },
        }
    }
    assert(saved_views(saved@).take(saved.len() as int) =~= saved_views(saved@));
    Ok(out)
}

/// Once a prefix of the saved connections has no listing, no longer prefix
/// has one.
proof fn lemma_listing_stays_none(s: Seq<SavedConnectionView>, k: int)
    requires
        0 <= k <= s.len(),
        vpn_listing(s.take(k)) is None,
    ensures
        vpn_listing(s) is None,
    decreases s.len() - k,
{
    if k < s.len() {
        assert(s.take(k + 1).drop_last() =~= s.take(k));
        lemma_listing_stays_none(s, k + 1);
    } else {
        assert(s.take(k) =~= s);
    }
}

/// A D-Bus error message that is about missing secrets.
pub open spec fn is_secrets_message(msg: Seq<char>) -> bool {
    contains_seq(msg, "Secrets"@) || contains_seq(msg, "secret"@)
}

/// The activation failed because the connection needs secrets that are not
/// stored (judged by the D-Bus error's message).
pub fn looks_like_secrets_error(msg: &str) -> (b: bool)
    ensures
        b == is_secrets_message(msg@),
{
    let chars = chars_of(msg);
    contains_str(&chars, "Secrets") || contains_str(&chars, "secret")
}

/// The error for an activation of `connection_id` that D-Bus refused with
/// the message `msg`, where it is one this library names.
pub fn activation_failure(connection_id: &str, msg: &str) -> (r: Option<Error>)
    ensures
        is_secrets_message(msg@) ==> (r matches Some(Error::SecretsRequired { name }) && name@
            == connection_id@),
        !is_secrets_message(msg@) ==> r is None,
{
    if looks_like_secrets_error(msg) {
        Some(Error::SecretsRequired { name: connection_id.to_owned() })
    } else {
        None
    }
}

/// The position of the first of `ids` that is `id`.
pub open spec fn first_with_id(ids: Seq<Seq<char>>, id: Seq<char>, i: int) -> bool {
    0 <= i < ids.len() && ids[i] == id && forall|k: int| 0 <= k < i ==> ids[k] != id
}

/// Finds the connection named `id` among connections named `ids`; none is
/// `NotFound(id)`.
pub fn find_by_id(ids: &Vec<String>, id: &str) -> (r: Result<usize, Error>)
    ensures
        r matches Ok(i) ==> first_with_id(string_views(ids@), id@, i as int),
        r matches Err(e) ==> !string_views(ids@).contains(id@) && (e matches Error::NotFound(n) && n@
            == id@),
{
    let wanted = id.to_owned();
    for i in 0..ids.len()
        invariant
            wanted@ == id@,
            forall|k: int| 0 <= k < i ==> #[trigger] string_views(ids@)[k] != id@,
    {
        assert(string_views(ids@)[i as int] == ids@[i as int]@);
        if ids[i] == wanted {
            return Ok(i);
        }
    }
    Err(Error::NotFound(wanted))
}

} // verus!
