//! VPN abstraction: the data the UI renders, and the decisions that turn a
//! request ("activate this one", "disconnect everything") into the backend
//! calls that carry it out.
use vstd::prelude::*;

use crate::error::Error;
use crate::text::{
    concat, lemma_seq_lt_irreflexive, lemma_seq_lt_total, lemma_seq_lt_transitive, pad_right,
    pad_right_string, seq_lt, str_lt, string_views,
};
use crate::vpn::wireguard::opt_view;

pub mod import;
pub mod nm;
pub mod nmcli;
pub mod openvpn;
pub mod tailscale;
pub mod wireguard;

verus! {

/// Which backend a connection belongs to.
#[derive(Debug, Clone, Copy, PartialEq, Eq, Structural)]
pub enum VpnKind {
    Tailscale,
    WireGuard,
    OpenVpn,
}

pub open spec fn kind_name(k: VpnKind) -> Seq<char> {
    match k {
        VpnKind::Tailscale => "tailscale"@,
        VpnKind::WireGuard => "wireguard"@,
        VpnKind::OpenVpn => "openvpn"@,
    }
}

impl VpnKind {
    /// The backend's lower-case name.
    pub fn as_str(self) -> (s: &'static str)
        ensures
            s@ == kind_name(self),
    {
        match self {
            VpnKind::Tailscale => "tailscale",
            VpnKind::WireGuard => "wireguard",
            VpnKind::OpenVpn => "openvpn",
        }
    }
}

#[derive(Debug, Clone, Copy, PartialEq, Eq, Structural)]
pub enum ConnectionState {
    Active,
    Inactive,
    Unavailable,
}

/// The two config file formats that can be imported.
#[derive(Debug, Clone, Copy, PartialEq, Eq, Structural)]
pub enum ConfigKind {
    WireGuard,
    OpenVpn,
}

pub open spec fn config_kind_name(k: ConfigKind) -> Seq<char> {
    match k {
        ConfigKind::WireGuard => "wireguard"@,
        ConfigKind::OpenVpn => "openvpn"@,
    }
}

impl ConfigKind {
    /// The format's lower-case name, which is also the name of the
    /// NetworkManager plugin that imports it.
    pub fn as_str(self) -> (s: &'static str)
        ensures
            s@ == config_kind_name(self),
    {
        match self {
            ConfigKind::WireGuard => "wireguard",
            ConfigKind::OpenVpn => "openvpn",
        }
    }
}


/// A VPN connection as the UI shows it.
#[derive(Debug, Clone)]
pub struct Connection {
    pub name: String,
    pub kind: VpnKind,
    pub state: ConnectionState,
    /// Free-form detail shown in the UI (e.g. tailnet name, endpoint).
    pub detail: Option<String>,
}

pub struct ConnectionView {
    pub name: Seq<char>,
    pub kind: VpnKind,
    pub state: ConnectionState,
    pub detail: Option<Seq<char>>,
}

impl View for Connection {
    type V = ConnectionView;

    open spec fn view(&self) -> ConnectionView {
        ConnectionView {
            name: self.name@,
            kind: self.kind,
            state: self.state,
            detail: opt_view(self.detail),
        }
    }
}

pub open spec fn connection_views(s: Seq<Connection>) -> Seq<ConnectionView> {
    s.map_values(|c: Connection| c@)
}

impl Connection {
    /// A copy of this connection.
    pub fn duplicate(&self) -> (r: Connection)
        ensures
            r@ == self@,
    {
        Connection {
            name: self.name.clone(),
            kind: self.kind,
            state: self.state,
            detail: match &self.detail {
                Some(d) => Some(d.clone()),
                None => None,
            },
        }
    }
}

/// Every connection the backends report, in display order.
#[derive(Debug, Clone)]
pub struct Snapshot {
    pub connections: Vec<Connection>,
}

impl View for Snapshot {
    type V = Seq<ConnectionView>;

    open spec fn view(&self) -> Seq<ConnectionView> {
        connection_views(self.connections@)
    }
}

impl Default for Snapshot {
    fn default() -> (s: Snapshot)
        ensures
            s@ == Seq::<ConnectionView>::empty(),
    {
        let s = Snapshot { connections: Vec::new() };
        assert(s@ =~= Seq::<ConnectionView>::empty());
        s
    }
}

// ---------------------------------------------------------------------------
// Snapshot order
// ---------------------------------------------------------------------------

/// `a` sorts no later than `b`.
pub open spec fn name_le(a: Seq<char>, b: Seq<char>) -> bool {
    !seq_lt(b, a)
}

pub open spec fn sorted_by_name(s: Seq<ConnectionView>) -> bool {
    forall|i: int, j: int|
        0 <= i < j < s.len() ==> name_le(#[trigger] s[i].name, #[trigger] s[j].name)
}

/// The connections of `s` named `k`, in order.
pub open spec fn named(s: Seq<ConnectionView>, k: Seq<char>) -> Seq<ConnectionView> {
    s.filter(|c: ConnectionView| c.name == k)
}

/// `output` is `input` sorted by name, connections of the same name keeping
/// their order (a stable sort).
pub open spec fn stable_name_sort(input: Seq<ConnectionView>, output: Seq<ConnectionView>) -> bool {
    &&& output.len() == input.len()
    &&& sorted_by_name(output)
    &&& forall|k: Seq<char>| #[trigger] named(output, k) == named(input, k)
}

proof fn lemma_named_all_other(s: Seq<ConnectionView>, k: Seq<char>)
    requires
        forall|i: int| 0 <= i < s.len() ==> #[trigger] s[i].name != k,
    ensures
        named(s, k) == Seq::<ConnectionView>::empty(),
{
    let pred = |c: ConnectionView| c.name == k;
    assert(s.all(|x: ConnectionView| !pred(x)));
    s.lemma_all_neg_filter_empty(pred);
    assert(named(s, k) =~= Seq::<ConnectionView>::empty());
}

/// Inserting `x` after every connection that sorts no later than it keeps
/// the order and adds `x` at the end of its name's group.
proof fn lemma_insert_sorted(r: Seq<ConnectionView>, p: int, x: ConnectionView)
    requires
        0 <= p <= r.len(),
        sorted_by_name(r),
        forall|q: int| 0 <= q < p ==> !seq_lt(x.name, #[trigger] r[q].name),
        p < r.len() ==> seq_lt(x.name, r[p].name),
    ensures
        sorted_by_name(r.insert(p, x)),
        forall|k: Seq<char>|
            #[trigger] named(r.insert(p, x), k) == if x.name == k {
                named(r, k).push(x)
            } else {
                named(r, k)
            },
{
    let r2 = r.insert(p, x);
    r.insert_ensures(p, x);
    // every connection from position p on sorts strictly after x
    assert forall|q: int| p <= q < r.len() implies seq_lt(x.name, #[trigger] r[q].name) by {
        if q > p {
            assert(name_le(r[p].name, r[q].name));
            lemma_seq_lt_total(r[p].name, r[q].name);
            if r[p].name != r[q].name {
                lemma_seq_lt_transitive(x.name, r[p].name, r[q].name);
            }
        }
    }
    assert forall|i: int, j: int| 0 <= i < j < r2.len() implies name_le(
        #[trigger] r2[i].name,
        #[trigger] r2[j].name,
    ) by {
        if j < p {
            assert(r2[i] == r[i] && r2[j] == r[j]);
        } else if j == p {
            assert(r2[i] == r[i]);
        } else if i < p {
            assert(r2[i] == r[i] && r2[j] == r[j - 1]);
        } else if i == p {
            assert(r2[j] == r[j - 1]);
            lemma_seq_lt_total(x.name, r[j - 1].name);
        } else {
            assert(r2[i] == r[i - 1] && r2[j] == r[j - 1]);
        }
    }
    let front = r.subrange(0, p);
    let back = r.subrange(p, r.len() as int);
    assert(r =~= front + back);
    assert(r2 =~= front.push(x) + back);
    assert forall|k: Seq<char>| #[trigger]
        named(r2, k) == if x.name == k {
            named(r, k).push(x)
        } else {
            named(r, k)
        } by {
        let pred = |c: ConnectionView| c.name == k;
        Seq::filter_distributes_over_add(front.push(x), back, pred);
        Seq::filter_distributes_over_add(front, back, pred);
        front.lemma_filter_push(x, pred);
        if x.name == k {
            assert forall|i: int| 0 <= i < back.len() implies #[trigger] back[i].name != k by {
                assert(back[i] == r[p + i]);
                lemma_seq_lt_irreflexive(x.name);
            }
            lemma_named_all_other(back, k);
            assert(named(r2, k) =~= named(front, k).push(x));
            assert(named(r, k) =~= named(front, k));
        }
    }
}

/// Stable sort by name (`sort_by(|a, b| a.name.cmp(&b.name))`).
pub fn sort_by_name(v: Vec<Connection>) -> (r: Vec<Connection>)
    ensures
        stable_name_sort(connection_views(v@), connection_views(r@)),
{
    let ghost input = connection_views(v@);
    let mut r: Vec<Connection> = Vec::new();
    let mut rest = v;
    let n = rest.len();
    assert(connection_views(r@) =~= input.take(0));
    let mut i: usize = 0;
    while i < n
        invariant
            i <= n == input.len(),
            rest.len() == n - i,
            forall|q: int| 0 <= q < rest.len() ==> #[trigger] rest@[q]@ == input[i + q],
            connection_views(r@).len() == i,
            sorted_by_name(connection_views(r@)),
            forall|k: Seq<char>| #[trigger] named(connection_views(r@), k) == named(input.take(i as int), k),
        decreases n - i,
    {
        let x = rest.remove(0);
        assert(x@ == input[i as int]);
        let ghost rv = connection_views(r@);
        let mut p: usize = 0;
        while p < r.len() && !str_lt(x.name.as_str(), r[p].name.as_str())
            invariant
                p <= r.len(),
                rv == connection_views(r@),
                forall|q: int| 0 <= q < p ==> !seq_lt(x@.name, #[trigger] rv[q].name),
            decreases r.len() - p,
        {
            p += 1;
        }
        proof {
            lemma_insert_sorted(rv, p as int, x@);
            assert(input.take(i + 1) =~= input.take(i as int).push(x@));
            assert forall|k: Seq<char>| #[trigger] named(input.take(i + 1), k) == if x@.name == k {
                named(input.take(i as int), k).push(x@)
            } else {
                named(input.take(i as int), k)
            } by {
                input.take(i as int).lemma_filter_push(x@, |c: ConnectionView| c.name == k);
            }
        }
        r.insert(p, x);
        assert(connection_views(r@) =~= rv.insert(p as int, x@));
        i += 1;
    }
    assert(input.take(n as int) =~= input);
    r
}

/// The snapshot of all backends: Tailscale first, then the WireGuard
/// connections sorted by name. The Tailscale query's error wins over the
/// WireGuard listing's.
pub fn assemble_snapshot(
    tailscale: Result<Connection, Error>,
    wireguard: Result<Vec<Connection>, Error>,
) -> (r: Result<Snapshot, Error>)
    ensures
        tailscale matches Err(e) ==> r == Err::<Snapshot, Error>(e),
        tailscale is Ok && wireguard is Err ==> r == Err::<Snapshot, Error>(wireguard->Err_0),
        tailscale is Ok && wireguard is Ok ==> (r matches Ok(snap) && snap@.len() >= 1 && snap@[0]
            == tailscale->Ok_0@ && stable_name_sort(
            connection_views(wireguard->Ok_0@),
            snap@.drop_first(),
        )),
{
    let ts = match tailscale {
        Ok(c) => c,
        Err(e) => return Err(e),
    };
    let wg = match wireguard {
        Ok(v) => v,
        Err(e) => return Err(e),
    };
    let sorted = sort_by_name(wg);
    let mut connections: Vec<Connection> = Vec::new();
    connections.push(ts);
    let ghost head = connection_views(connections@);
    let mut rest = sorted;
    connections.append(&mut rest);
    let snap = Snapshot { connections };
    assert(snap@.drop_first() =~= connection_views(sorted@));
    Ok(snap)
}


// ---------------------------------------------------------------------------
// Mutual exclusion
// ---------------------------------------------------------------------------

/// `c` is the connection `t` refers to (same name, same backend).
pub open spec fn same_connection(c: ConnectionView, t: ConnectionView) -> bool {
    c.name == t.name && c.kind == t.kind
}

/// `t` is active and nothing else is.
pub open spec fn exclusively_active(conns: Seq<ConnectionView>, t: ConnectionView) -> bool {
    forall|i: int|
        0 <= i < conns.len() ==> ((#[trigger] conns[i]).state == ConnectionState::Active
            <==> same_connection(conns[i], t))
}

/// The active connections other than `t`.
pub open spec fn others_active(conns: Seq<ConnectionView>, t: ConnectionView) -> Seq<ConnectionView> {
    conns.filter(|c: ConnectionView| c.state == ConnectionState::Active && !same_connection(c, t))
}

/// What activating `t` brings down: nothing when `t` is already exclusively
/// active, else every other active connection.
pub open spec fn activation_downs(conns: Seq<ConnectionView>, t: ConnectionView) -> Seq<ConnectionView> {
    if exclusively_active(conns, t) {
        Seq::empty()
    } else {
        others_active(conns, t)
    }
}

/// Activating `t` brings it up unless it is already exclusively active.
pub open spec fn activation_brings_up(conns: Seq<ConnectionView>, t: ConnectionView) -> bool {
    !exclusively_active(conns, t)
}

/// A connection's state once the connections in `downs` are down and, if
/// `up`, `t` is up.
pub open spec fn state_after(
    c: ConnectionView,
    t: ConnectionView,
    downs: Seq<ConnectionView>,
    up: bool,
) -> ConnectionState {
    if same_connection(c, t) && up {
        ConnectionState::Active
    } else if downs.contains(c) {
        ConnectionState::Inactive
    } else {
        c.state
    }
}

pub open spec fn after_plan(
    conns: Seq<ConnectionView>,
    t: ConnectionView,
    downs: Seq<ConnectionView>,
    up: bool,
) -> Seq<ConnectionView> {
    conns.map_values(|c: ConnectionView| ConnectionView { state: state_after(c, t, downs, up), ..c })
}

/// The backend calls that carry out a request.
pub struct ActivationPlan {
    /// Connections to bring down, in snapshot order.
    pub bring_down: Vec<Connection>,
    /// Whether to bring the target up afterwards.
    pub bring_up: bool,
}

/// Whether `target` is already the one and only active connection.
pub fn is_exclusively_active(snap: &Snapshot, target: &Connection) -> (b: bool)
    ensures
        b == exclusively_active(snap@, target@),
{
    let n = snap.connections.len();
    for i in 0..n
        invariant
            n == snap@.len(),
            forall|k: int|
                0 <= k < i ==> ((#[trigger] snap@[k]).state == ConnectionState::Active
                    <==> same_connection(snap@[k], target@)),
    {
        let c = &snap.connections[i];
        assert(snap@[i as int] == c@);
        let same = c.name == target.name && c.kind == target.kind;
        let active = c.state == ConnectionState::Active;
        if same != active {
            return false;
        }
    }
    true
}

/// The active connections of `snap` other than `target`, in order.
fn active_others(snap: &Snapshot, target: &Connection) -> (r: Vec<Connection>)
    ensures
        connection_views(r@) == others_active(snap@, target@),
{
    let ghost pred = |c: ConnectionView| c.state == ConnectionState::Active && !same_connection(c, target@);
    let mut r: Vec<Connection> = Vec::new();
    let n = snap.connections.len();
    assert(snap@.take(0).filter(pred) =~= Seq::<ConnectionView>::empty()) by {
        reveal(Seq::filter);
    }
    for i in 0..n
        invariant
            n == snap@.len(),
            pred == (|c: ConnectionView| c.state == ConnectionState::Active && !same_connection(c, target@)),
            connection_views(r@) == snap@.take(i as int).filter(pred),
    {
        let c = &snap.connections[i];
        assert(snap@[i as int] == c@);
        assert(snap@.take(i + 1) =~= snap@.take(i as int).push(c@));
        proof {
            snap@.take(i as int).lemma_filter_push(c@, pred);
        }
        if c.state == ConnectionState::Active && !(c.name == target.name && c.kind == target.kind) {
            let ghost before = connection_views(r@);
            r.push(c.duplicate());
            assert(connection_views(r@) =~= before.push(c@));
        }
    }
    assert(snap@.take(n as int) =~= snap@);
    r
}

/// What it takes to bring `target` up and everything else down. Already
/// exclusively active: nothing to do.
pub fn plan_activation(snap: &Snapshot, target: &Connection) -> (p: ActivationPlan)
    ensures
        connection_views(p.bring_down@) == activation_downs(snap@, target@),
        p.bring_up == activation_brings_up(snap@, target@),
{
    if is_exclusively_active(snap, target) {
        let p = ActivationPlan { bring_down: Vec::new(), bring_up: false };
        assert(connection_views(p.bring_down@) =~= Seq::<ConnectionView>::empty());
        p
    } else {
        ActivationPlan { bring_down: active_others(snap, target), bring_up: true }
    }
}

/// After carrying out the plan for activating `t`, `t` is active and every
/// other connection is not.
pub proof fn law_activation_is_exclusive(conns: Seq<ConnectionView>, t: ConnectionView)
    ensures
        exclusively_active(
            after_plan(conns, t, activation_downs(conns, t), activation_brings_up(conns, t)),
            t,
        ),
{
    let downs = activation_downs(conns, t);
    let up = activation_brings_up(conns, t);
    let after = after_plan(conns, t, downs, up);
    let pred = |c: ConnectionView| c.state == ConnectionState::Active && !same_connection(c, t);
    assert forall|i: int| 0 <= i < after.len() implies ((#[trigger] after[i]).state
        == ConnectionState::Active <==> same_connection(after[i], t)) by {
        let c = conns[i];
        assert(after[i] == ConnectionView { state: state_after(c, t, downs, up), ..c });
        if !exclusively_active(conns, t) {
            if pred(c) {
                conns.lemma_filter_contains(pred, i);
            }
            if downs.contains(c) {
                let j = choose|j: int| 0 <= j < downs.len() && downs[j] == c;
                conns.lemma_filter_pred(pred, j);
            }
        }
    }
}

/// Activating a connection that is already the only active one changes
/// nothing.
pub proof fn law_activation_idempotent(conns: Seq<ConnectionView>, t: ConnectionView)
    requires
        exclusively_active(conns, t),
    ensures
        activation_downs(conns, t).len() == 0,
        !activation_brings_up(conns, t),
        after_plan(conns, t, activation_downs(conns, t), activation_brings_up(conns, t)) == conns,
{
    let after = after_plan(conns, t, activation_downs(conns, t), activation_brings_up(conns, t));
    assert(after =~= conns);
}

/// The active connections, which disconnecting brings down.
pub open spec fn active_connections(conns: Seq<ConnectionView>) -> Seq<ConnectionView> {
    conns.filter(|c: ConnectionView| c.state == ConnectionState::Active)
}

/// Every active connection, in snapshot order.
pub fn plan_disconnect(snap: &Snapshot) -> (r: Vec<Connection>)
    ensures
        connection_views(r@) == active_connections(snap@),
{
    let ghost pred = |c: ConnectionView| c.state == ConnectionState::Active;
    let mut r: Vec<Connection> = Vec::new();
    let n = snap.connections.len();
    assert(snap@.take(0).filter(pred) =~= Seq::<ConnectionView>::empty()) by {
        reveal(Seq::filter);
    }
    for i in 0..n
        invariant
            n == snap@.len(),
            pred == (|c: ConnectionView| c.state == ConnectionState::Active),
            connection_views(r@) == snap@.take(i as int).filter(pred),
    {
        let c = &snap.connections[i];
        assert(snap@[i as int] == c@);
        assert(snap@.take(i + 1) =~= snap@.take(i as int).push(c@));
        proof {
            snap@.take(i as int).lemma_filter_push(c@, pred);
        }
        if c.state == ConnectionState::Active {
            let ghost before = connection_views(r@);
            r.push(c.duplicate());
            assert(connection_views(r@) =~= before.push(c@));
        }
    }
    assert(snap@.take(n as int) =~= snap@);
    r
}

/// A connection's state once the connections in `downs` are down.
pub open spec fn after_disconnect(conns: Seq<ConnectionView>, downs: Seq<ConnectionView>) -> Seq<ConnectionView> {
    conns.map_values(
        |c: ConnectionView|
            ConnectionView {
                state: if downs.contains(c) {
                    ConnectionState::Inactive
                } else {
                    c.state
                },
                ..c
            },
    )
}

/// Disconnecting leaves no connection active.
pub proof fn law_disconnect_leaves_none_active(conns: Seq<ConnectionView>)
    ensures
        forall|i: int|
            0 <= i < conns.len() ==> (#[trigger] after_disconnect(conns, active_connections(conns))[i]).state
                != ConnectionState::Active,
{
    let pred = |c: ConnectionView| c.state == ConnectionState::Active;
    assert forall|i: int| 0 <= i < conns.len() implies (#[trigger] after_disconnect(
        conns,
        active_connections(conns),
    )[i]).state != ConnectionState::Active by {
        if pred(conns[i]) {
            conns.lemma_filter_contains(pred, i);
        }
    }
}

/// Activating `t` skips bringing it up exactly when every entry for `t` (same
/// name and backend) is already active and no other entry is; otherwise `t`
/// is brought up. What is brought down is active and not `t`, and, whenever
/// `t` is brought up, every other active entry is brought down. Once the plan
/// is carried out every entry for `t` is active.
pub proof fn law_activation_brings_target_up(conns: Seq<ConnectionView>, t: ConnectionView)
    ensures
        !activation_brings_up(conns, t) <==> forall|i: int|
            #![trigger conns[i]]
            0 <= i < conns.len() ==> {
                &&& (conns[i].name == t.name && conns[i].kind == t.kind) ==> conns[i].state
                    == ConnectionState::Active
                &&& !(conns[i].name == t.name && conns[i].kind == t.kind) ==> conns[i].state
                    != ConnectionState::Active
            },
        forall|j: int|
            #![trigger activation_downs(conns, t)[j]]
            0 <= j < activation_downs(conns, t).len() ==> activation_downs(conns, t)[j].state
                == ConnectionState::Active && !(activation_downs(conns, t)[j].name == t.name
                && activation_downs(conns, t)[j].kind == t.kind),
        activation_brings_up(conns, t) ==> forall|i: int|
            #![trigger conns[i]]
            0 <= i < conns.len() && conns[i].state == ConnectionState::Active && !(conns[i].name
                == t.name && conns[i].kind == t.kind) ==> activation_downs(conns, t).contains(conns[i]),
        forall|i: int|
            #![trigger conns[i]]
            0 <= i < conns.len() && conns[i].name == t.name && conns[i].kind == t.kind ==> after_plan(
                conns,
                t,
                activation_downs(conns, t),
                activation_brings_up(conns, t),
            )[i].state == ConnectionState::Active,
{
    let downs = activation_downs(conns, t);
    let pred = |c: ConnectionView| c.state == ConnectionState::Active && !same_connection(c, t);
    assert forall|j: int| 0 <= j < downs.len() implies #[trigger] downs[j].state
        == ConnectionState::Active && !(downs[j].name == t.name && downs[j].kind == t.kind) by {
        if !exclusively_active(conns, t) {
            conns.lemma_filter_pred(pred, j);
        }
    }
    assert forall|i: int|
        0 <= i < conns.len() && activation_brings_up(conns, t) && #[trigger] conns[i].state
            == ConnectionState::Active && !(conns[i].name == t.name && conns[i].kind
            == t.kind) implies downs.contains(conns[i]) by {
        conns.lemma_filter_contains(pred, i);
    }
    assert forall|i: int|
        0 <= i < conns.len() && #[trigger] conns[i].name == t.name && conns[i].kind
            == t.kind implies after_plan(conns, t, downs, activation_brings_up(conns, t))[i].state
        == ConnectionState::Active by {
        let c = conns[i];
        assert(after_plan(conns, t, downs, activation_brings_up(conns, t))[i] == ConnectionView {
            state: state_after(c, t, downs, activation_brings_up(conns, t)),
            ..c
        });
    }
}

/// Disconnecting brings down exactly the active connections: everything it
/// brings down is active, every active connection is brought down, and they
/// come in snapshot order.
pub proof fn law_disconnect_brings_down_the_active(conns: Seq<ConnectionView>)
    ensures
        forall|j: int|
            #![trigger active_connections(conns)[j]]
            0 <= j < active_connections(conns).len() ==> active_connections(conns)[j].state
                == ConnectionState::Active,
        forall|i: int|
            #![trigger conns[i]]
            0 <= i < conns.len() && conns[i].state == ConnectionState::Active ==> active_connections(
                conns,
            ).contains(conns[i]),
        active_connections(conns).len() <= conns.len(),
{
    let pred = |c: ConnectionView| c.state == ConnectionState::Active;
    assert forall|j: int| 0 <= j < active_connections(conns).len() implies
        #[trigger] active_connections(conns)[j].state == ConnectionState::Active by {
        conns.lemma_filter_pred(pred, j);
    }
    assert forall|i: int| 0 <= i < conns.len() && #[trigger] conns[i].state
        == ConnectionState::Active implies active_connections(conns).contains(conns[i]) by {
        conns.lemma_filter_contains(pred, i);
    }
    conns.lemma_filter_len(pred);
}

/// The backend call that brings a connection up or down.
#[derive(Debug, Clone, PartialEq, Eq)]
pub enum BackendCall {
    /// Start `tailscaled` (or bring the node up through it).
    StartTailscale,
    /// Stop `tailscaled`.
    StopTailscale,
    /// Activate the NetworkManager connection of this name.
    NmUp(String),
    /// Deactivate the NetworkManager connection of this name.
    NmDown(String),
}

/// How to bring `c` down.
pub fn down_call(c: &Connection) -> (r: BackendCall)
    ensures
        c.kind == VpnKind::Tailscale ==> r == BackendCall::StopTailscale,
        c.kind != VpnKind::Tailscale ==> (r matches BackendCall::NmDown(n) && n@ == c.name@),
{
    match c.kind {
        VpnKind::Tailscale => BackendCall::StopTailscale,
        _ => BackendCall::NmDown(c.name.clone()),
    }
}

/// How to bring `c` up.
pub fn up_call(c: &Connection) -> (r: BackendCall)
    ensures
        c.kind == VpnKind::Tailscale ==> r == BackendCall::StartTailscale,
        c.kind != VpnKind::Tailscale ==> (r matches BackendCall::NmUp(n) && n@ == c.name@),
{
    match c.kind {
        VpnKind::Tailscale => BackendCall::StartTailscale,
        _ => BackendCall::NmUp(c.name.clone()),
    }
}


// ---------------------------------------------------------------------------
// Toggling and deleting
// ---------------------------------------------------------------------------

/// Which way a toggle went.
#[derive(Debug, Clone, Copy, PartialEq, Eq, Structural)]
pub enum Toggled {
    Up,
    Down,
}

/// The entries for `t` that are active.
pub open spec fn target_active(conns: Seq<ConnectionView>, t: ConnectionView) -> Seq<ConnectionView> {
    conns.filter(|c: ConnectionView| same_connection(c, t) && c.state == ConnectionState::Active)
}

/// What toggling `target` does: an active target is brought down (and
/// nothing else changes); any other target is activated exclusively.
pub fn plan_toggle(snap: &Snapshot, target: &Connection) -> (r: (ActivationPlan, Toggled))
    ensures
        target_active(snap@, target@).len() > 0 ==> r.1 == Toggled::Down && connection_views(
            r.0.bring_down@,
        ) == target_active(snap@, target@) && !r.0.bring_up,
        target_active(snap@, target@).len() == 0 ==> r.1 == Toggled::Up && connection_views(
            r.0.bring_down@,
        ) == activation_downs(snap@, target@) && r.0.bring_up == activation_brings_up(
            snap@,
            target@,
        ),
{
    let ghost pred = |c: ConnectionView| same_connection(c, target@) && c.state == ConnectionState::Active;
    let mut downs: Vec<Connection> = Vec::new();
    let n = snap.connections.len();
    assert(snap@.take(0).filter(pred) =~= Seq::<ConnectionView>::empty()) by {
        reveal(Seq::filter);
    }
    for i in 0..n
        invariant
            n == snap@.len(),
            pred == (|c: ConnectionView| same_connection(c, target@) && c.state == ConnectionState::Active),
            connection_views(downs@) == snap@.take(i as int).filter(pred),
    {
        let c = &snap.connections[i];
        assert(snap@[i as int] == c@);
        assert(snap@.take(i + 1) =~= snap@.take(i as int).push(c@));
        proof {
            snap@.take(i as int).lemma_filter_push(c@, pred);
        }
        if c.name == target.name && c.kind == target.kind && c.state == ConnectionState::Active {
            let ghost before = connection_views(downs@);
            downs.push(c.duplicate());
            assert(connection_views(downs@) =~= before.push(c@));
        }
    }
    assert(snap@.take(n as int) =~= snap@);
    if downs.len() > 0 {
        (ActivationPlan { bring_down: downs, bring_up: false }, Toggled::Down)
    } else {
        (plan_activation(snap, target), Toggled::Up)
    }
}

/// Toggling an active connection down leaves no entry for it active, and
/// changes no other connection.
pub proof fn law_toggle_down(conns: Seq<ConnectionView>, t: ConnectionView)
    ensures
        forall|i: int|
            #![trigger conns[i]]
            0 <= i < conns.len() ==> {
                let after = after_plan(conns, t, target_active(conns, t), false)[i];
                &&& same_connection(conns[i], t) ==> after.state != ConnectionState::Active
                &&& !same_connection(conns[i], t) ==> after == conns[i]
            },
{
    let downs = target_active(conns, t);
    let pred = |c: ConnectionView| same_connection(c, t) && c.state == ConnectionState::Active;
    assert forall|i: int| #![trigger conns[i]] 0 <= i < conns.len() implies {
        let after = after_plan(conns, t, downs, false)[i];
        &&& same_connection(conns[i], t) ==> after.state != ConnectionState::Active
        &&& !same_connection(conns[i], t) ==> after == conns[i]
    } by {
        let c = conns[i];
        if pred(c) {
            conns.lemma_filter_contains(pred, i);
        }
        if downs.contains(c) {
            let j = choose|j: int| 0 <= j < downs.len() && downs[j] == c;
            conns.lemma_filter_pred(pred, j);
        }
        assert(after_plan(conns, t, downs, false)[i] == ConnectionView {
            state: state_after(c, t, downs, false),
            ..c
        });
    }
}

/// Toggling goes down exactly when some entry for the target (same name and
/// backend) is active, and then brings down exactly those entries, in order.
pub proof fn law_toggle_goes_down_when_target_active(conns: Seq<ConnectionView>, t: ConnectionView)
    ensures
        target_active(conns, t).len() > 0 <==> exists|i: int|
            #![trigger conns[i]]
            0 <= i < conns.len() && conns[i].name == t.name && conns[i].kind == t.kind
                && conns[i].state == ConnectionState::Active,
        forall|j: int|
            #![trigger target_active(conns, t)[j]]
            0 <= j < target_active(conns, t).len() ==> target_active(conns, t)[j].state
                == ConnectionState::Active && target_active(conns, t)[j].name == t.name
                && target_active(conns, t)[j].kind == t.kind,
        forall|i: int|
            #![trigger conns[i]]
            0 <= i < conns.len() && conns[i].name == t.name && conns[i].kind == t.kind
                && conns[i].state == ConnectionState::Active ==> target_active(conns, t).contains(conns[i]),
{
    let pred = |c: ConnectionView| same_connection(c, t) && c.state == ConnectionState::Active;
    let ta = target_active(conns, t);
    assert forall|j: int| 0 <= j < ta.len() implies #[trigger] ta[j].state == ConnectionState::Active
        && ta[j].name == t.name && ta[j].kind == t.kind by {
        conns.lemma_filter_pred(pred, j);
    }
    assert forall|i: int|
        0 <= i < conns.len() && #[trigger] conns[i].name == t.name && conns[i].kind == t.kind
            && conns[i].state == ConnectionState::Active implies ta.contains(conns[i]) by {
        conns.lemma_filter_contains(pred, i);
    }
    if ta.len() > 0 {
        assert(ta.contains(ta[0]));
        conns.lemma_filter_pred(pred, 0);
        conns.lemma_filter_contains_rev(pred, ta[0]);
        let k = choose|k: int| 0 <= k < conns.len() && conns[k] == ta[0];
        assert(conns[k].name == t.name && conns[k].kind == t.kind
            && conns[k].state == ConnectionState::Active);
    }
}

/// The `nmcli` arguments that delete `target`; Tailscale is not a
/// NetworkManager connection and cannot be deleted.
pub fn delete_args(target: &Connection) -> (r: Result<Vec<String>, Error>)
    ensures
        target.kind == VpnKind::Tailscale ==> (r matches Err(Error::CannotDelete { kind }) && kind@
            == "tailscale"@),
        target.kind != VpnKind::Tailscale ==> (r matches Ok(args) && string_views(args@) == seq![
            "connection"@,
            "delete"@,
            target.name@,
        ]),
{
    if target.kind == VpnKind::Tailscale {
        return Err(Error::CannotDelete { kind: "tailscale".to_owned() });
    }
    let mut args: Vec<String> = Vec::new();
    args.push("connection".to_owned());
    args.push("delete".to_owned());
    args.push(target.name.clone());
    assert(string_views(args@) =~= seq!["connection"@, "delete"@, target.name@]);
    Ok(args)
}

// ---------------------------------------------------------------------------
// Text
// ---------------------------------------------------------------------------

pub open spec fn state_word(s: ConnectionState) -> Seq<char> {
    match s {
        ConnectionState::Active => "active"@,
        ConnectionState::Inactive => "inactive"@,
        ConnectionState::Unavailable => "unavailable"@,
    }
}

/// The status line of a connection: backend and state padded to ten
/// characters each, the name, and the detail in parentheses.
pub open spec fn connection_line(c: ConnectionView) -> Seq<char> {
    pad_right(kind_name(c.kind), 10) + " "@ + pad_right(state_word(c.state), 10) + " "@ + c.name
        + match c.detail {
        Some(d) => "  ("@ + d + ")"@,
        None => Seq::empty(),
    }
}

/// The status line names the state in words from column 11 on: `active`,
/// `inactive` or `unavailable`, so that lines of connections that differ only
/// in state differ.
pub proof fn law_status_line_names_the_state(c: ConnectionView, d: ConnectionView)
    ensures
        ({
            let w = if c.state == ConnectionState::Active {
                "active"@
            } else if c.state == ConnectionState::Inactive {
                "inactive"@
            } else {
                "unavailable"@
            };
            connection_line(c).len() >= 11 + w.len() && connection_line(c).subrange(11, 11 + w.len() as int) == w
        }),
        c.state != d.state ==> connection_line(c) != connection_line(d),
{
    reveal_strlit("active");
    reveal_strlit("inactive");
    reveal_strlit("unavailable");
    reveal_strlit("tailscale");
    reveal_strlit("wireguard");
    reveal_strlit("openvpn");
    reveal_strlit(" ");
    lemma_line_state_at(c);
    lemma_line_state_at(d);
    if c.state != d.state {
        assert(connection_line(c)[11] != connection_line(d)[11]);
    }
}

proof fn lemma_line_state_at(c: ConnectionView)
    ensures
        ({
            let w = if c.state == ConnectionState::Active {
                "active"@
            } else if c.state == ConnectionState::Inactive {
                "inactive"@
            } else {
                "unavailable"@
            };
            connection_line(c).len() >= 11 + w.len() && connection_line(c).subrange(11, 11 + w.len() as int) == w
                && connection_line(c)[11] == w[0]
        }),
{
    reveal_strlit("active");
    reveal_strlit("inactive");
    reveal_strlit("unavailable");
    reveal_strlit("tailscale");
    reveal_strlit("wireguard");
    reveal_strlit("openvpn");
    reveal_strlit(" ");
    let w = if c.state == ConnectionState::Active {
        "active"@
    } else if c.state == ConnectionState::Inactive {
        "inactive"@
    } else {
        "unavailable"@
    };
    let a = pad_right(kind_name(c.kind), 10);
    let b = pad_right(state_word(c.state), 10);
    assert(a.len() == 10);
    let head = a + " "@;
    assert(head.len() == 11);
    let rest = " "@ + c.name + match c.detail {
        Some(d) => "  ("@ + d + ")"@,
        None => Seq::empty(),
    };
    let line = connection_line(c);
    assert(line =~= head + b + rest);
    assert(b.len() >= w.len());
    assert forall|k: int| 0 <= k < w.len() implies #[trigger] b[k] == w[k] by {}
    assert(line.subrange(11, 11 + w.len() as int) =~= w);
}

impl Connection {
    /// The line `byt status` prints for this connection.
    pub fn display_line(&self) -> (s: String)
        ensures
            s@ == connection_line(self@),
    {
        let mark = match self.state {
            ConnectionState::Active => "active",
            ConnectionState::Inactive => "inactive",
            ConnectionState::Unavailable => "unavailable",
        };
        let mut s = pad_right_string(self.kind.as_str(), 10);
        s.append(" ");
        let m = pad_right_string(mark, 10);
        s.append(m.as_str());
        s.append(" ");
        s.append(self.name.as_str());
        match &self.detail {
            Some(d) => {
                s.append("  (");
                s.append(d.as_str());
                s.append(")");
            },
            None => {
                assert(s@ =~= s@ + Seq::<char>::empty());
            },
        }
        s
    }
}

} // verus!
