//! OpenVPN `.ovpn` / `.conf` preview parser.
//!
//! As with the WireGuard parser this is intentionally not a full parser:
//! `nmcli connection import type openvpn` does the real work. Only the
//! handful of fields needed for the import preview are extracted.
use vstd::prelude::*;

use crate::error::Error;
use crate::path::{file_stem, file_stem_of};
use crate::text::{
    decimal, decimal_string, join, join_strings, list_line, opt_line, push_list_line, push_opt_line,
    chars_of, eq_str, lines, lines_chars, parse_u16, parse_u16_chars, split_chars, split_on,
    string_of, string_views, strip_comment, strip_comment_chars, subvec, trim, trim_chars, views,
    words, words_chars, words_scan,
};
use crate::vpn::wireguard::opt_view;

verus! {

/// A `remote HOST [PORT]` directive.
#[derive(Debug, Clone)]
pub struct Remote {
    pub host: String,
    pub port: Option<u16>,
}

pub struct RemoteView {
    pub host: Seq<char>,
    pub port: Option<u16>,
}

impl View for Remote {
    type V = RemoteView;

    open spec fn view(&self) -> RemoteView {
        RemoteView { host: self.host@, port: self.port }
    }
}

/// What the import preview shows of an OpenVPN config.
#[derive(Debug, Default, Clone)]
pub struct OvpnPreview {
    pub source: String,
    pub remotes: Vec<Remote>,
    pub proto: Option<String>,
    pub cipher: Option<String>,
    pub data_ciphers: Vec<String>,
    pub auth_user_pass: bool,
    pub has_inline_ca: bool,
    pub has_inline_cert: bool,
    pub has_inline_key: bool,
    pub has_inline_tls_auth: bool,
    pub has_inline_tls_crypt: bool,
}

/// The parser's knowledge after reading some lines; also the view of a
/// preview (then `inside` and `saw_any` carry no meaning).
pub struct OvpnScan {
    pub source: Seq<char>,
    pub inside: Option<Seq<char>>,
    pub saw_any: bool,
    pub remotes: Seq<RemoteView>,
    pub proto: Option<Seq<char>>,
    pub cipher: Option<Seq<char>>,
    pub data_ciphers: Seq<Seq<char>>,
    pub auth_user_pass: bool,
    pub has_inline_ca: bool,
    pub has_inline_cert: bool,
    pub has_inline_key: bool,
    pub has_inline_tls_auth: bool,
    pub has_inline_tls_crypt: bool,
}

pub open spec fn remote_views(v: Seq<Remote>) -> Seq<RemoteView> {
    v.map_values(|r: Remote| r@)
}

impl View for OvpnPreview {
    type V = OvpnScan;

    open spec fn view(&self) -> OvpnScan {
        OvpnScan {
            source: self.source@,
            inside: None,
            saw_any: true,
            remotes: remote_views(self.remotes@),
            proto: opt_view(self.proto),
            cipher: opt_view(self.cipher),
            data_ciphers: string_views(self.data_ciphers@),
            auth_user_pass: self.auth_user_pass,
            has_inline_ca: self.has_inline_ca,
            has_inline_cert: self.has_inline_cert,
            has_inline_key: self.has_inline_key,
            has_inline_tls_auth: self.has_inline_tls_auth,
            has_inline_tls_crypt: self.has_inline_tls_crypt,
        }
    }
}

pub open spec fn ovpn_scan_start(source: Seq<char>) -> OvpnScan {
    OvpnScan {
        source,
        inside: None,
        saw_any: false,
        remotes: Seq::empty(),
        proto: None,
        cipher: None,
        data_ciphers: Seq::empty(),
        auth_user_pass: false,
        has_inline_ca: false,
        has_inline_cert: false,
        has_inline_key: false,
        has_inline_tls_auth: false,
        has_inline_tls_crypt: false,
    }
}

/// `<tag>` (with a tag that does not start with `/`) opens an inline block.
pub open spec fn inline_open_tag(t: Seq<char>) -> Option<Seq<char>> {
    if t.len() >= 2 && t[0] == '<' && t.last() == '>' && !(t.len() >= 3 && t[1] == '/') {
        Some(t.subrange(1, t.len() - 1))
    } else {
        None
    }
}

/// The line that closes the inline block `tag`.
pub open spec fn closing_tag(tag: Seq<char>) -> Seq<char> {
    seq!['<', '/'] + tag + seq!['>']
}

/// The effect of opening the inline block `tag`.
pub open spec fn ovpn_open_block(st: OvpnScan, tag: Seq<char>) -> OvpnScan {
    let st = OvpnScan { inside: Some(tag), saw_any: true, ..st };
    if tag == "ca"@ {
        OvpnScan { has_inline_ca: true, ..st }
    } else if tag == "cert"@ {
        OvpnScan { has_inline_cert: true, ..st }
    } else if tag == "key"@ {
        OvpnScan { has_inline_key: true, ..st }
    } else if tag == "tls-auth"@ {
        OvpnScan { has_inline_tls_auth: true, ..st }
    } else if tag == "tls-crypt"@ {
        OvpnScan { has_inline_tls_crypt: true, ..st }
    } else {
        st
    }
}

/// The second word, if there is one.
pub open spec fn second_word(w: Seq<Seq<char>>) -> Option<Seq<char>> {
    if w.len() >= 2 {
        Some(w[1])
    } else {
        None
    }
}

/// The effect of a directive line split into its words `w` (at least one).
pub open spec fn ovpn_directive(st: OvpnScan, w: Seq<Seq<char>>) -> OvpnScan {
    let keyword = w[0];
    if keyword == "remote"@ {
        if w.len() >= 2 {
            let port = if w.len() >= 3 {
                parse_u16(w[2])
            } else {
                None
            };
            OvpnScan { remotes: st.remotes.push(RemoteView { host: w[1], port }), ..st }
        } else {
            st
        }
    } else if keyword == "proto"@ {
        OvpnScan { proto: second_word(w), ..st }
    } else if keyword == "cipher"@ {
        OvpnScan { cipher: second_word(w), ..st }
    } else if keyword == "data-ciphers"@ {
        if w.len() >= 2 {
            OvpnScan { data_ciphers: split_on(w[1], ':'), ..st }
        } else {
            st
        }
    } else if keyword == "auth-user-pass"@ {
        OvpnScan { auth_user_pass: true, ..st }
    } else {
        st
    }
}

/// The effect of one line of the file.
pub open spec fn ovpn_step(st: OvpnScan, raw: Seq<char>) -> OvpnScan {
    let t = trim(raw);
    if st.inside is Some {
        if t == closing_tag(st.inside->0) {
            OvpnScan { inside: None, ..st }
        } else {
            st
        }
    } else if inline_open_tag(t) is Some {
        ovpn_open_block(st, inline_open_tag(t)->0)
    } else {
        let clean = strip_comment(t);
        if clean.len() == 0 {
            st
        } else {
            let st = OvpnScan { saw_any: true, ..st };
            let w = words(clean);
            if w.len() == 0 {
                st
            } else {
                ovpn_directive(st, w)
            }
        }
    }
}

/// A `remote HOST PORT ...` line outside inline blocks adds the remote
/// `HOST` with the port that the word right after the host gives (none where
/// it is not a number that fits in 16 bits), whatever words follow; nothing
/// else of the preview changes.
pub proof fn law_remote_port_follows_the_host(
    st: OvpnScan,
    raw: Seq<char>,
    host: Seq<char>,
    port: Seq<char>,
    rest: Seq<Seq<char>>,
)
    requires
        st.inside is None,
        inline_open_tag(trim(raw)) is None,
        words(strip_comment(trim(raw))) == seq!["remote"@, host, port] + rest,
    ensures
        ovpn_step(st, raw).remotes == st.remotes.push(RemoteView { host, port: parse_u16(port) }),
        ovpn_step(st, raw) == (OvpnScan {
            remotes: st.remotes.push(RemoteView { host, port: parse_u16(port) }),
            saw_any: true,
            ..st
        }),
{
    let clean = strip_comment(trim(raw));
    let w = words(clean);
    assert(w[0] == "remote"@ && w[1] == host && w[2] == port);
    if clean.len() == 0 {
        assert(clean =~= Seq::<char>::empty());
        assert(words_scan(clean) == (Seq::<Seq<char>>::empty(), Seq::<char>::empty()));
        assert(false);
    }
}

pub open spec fn ovpn_scan(source: Seq<char>, lines: Seq<Seq<char>>) -> OvpnScan
    decreases lines.len(),
{
    if lines.len() == 0 {
        ovpn_scan_start(source)
    } else {
        ovpn_step(ovpn_scan(source, lines.drop_last()), lines.last())
    }
}

/// The parser's knowledge after reading the file at `path` with contents `raw`.
pub open spec fn ovpn_result(path: Seq<char>, raw: Seq<char>) -> OvpnScan {
    ovpn_scan(path, lines(raw))
}

/// The preview that parsing gives: the scan without its parser state.
pub open spec fn ovpn_preview(path: Seq<char>, raw: Seq<char>) -> OvpnScan {
    OvpnScan { inside: None, saw_any: true, ..ovpn_result(path, raw) }
}

/// `t` is the closing line `</tag>`.
fn is_closing_tag(t: &Vec<char>, tag: &Vec<char>) -> (b: bool)
    ensures
        b == (t@ == closing_tag(tag@)),
{
    let n = tag.len();
    if t.len() < 3 || t.len() - 3 != n || t[0] != '<' || t[1] != '/' || t[n + 2] != '>' {
        proof {
            if t@ == closing_tag(tag@) {
                assert(t@[0] == '<' && t@[1] == '/' && t@[n + 2] == '>');
            }
        }
        return false;
    }
    let mut k: usize = 0;
    while k < n
        invariant
            n == tag.len(),
            t.len() == n + 3,
            forall|j: int| 0 <= j < k ==> t@[j + 2] == tag@[j],
        decreases n - k,
    {
        if t[k + 2] != tag[k] {
            assert(closing_tag(tag@)[k + 2] == tag@[k as int]);
            return false;
        }
        k += 1;
    }
    assert(t@ =~= closing_tag(tag@));
    true
}

fn open_tag(t: &Vec<char>) -> (r: Option<Vec<char>>)
    ensures
        r matches Some(tag) ==> inline_open_tag(t@) == Some(tag@),
        r is None ==> inline_open_tag(t@) is None,
{
    let n = t.len();
    if n >= 2 && t[0] == '<' && t[n - 1] == '>' && !(n >= 3 && t[1] == '/') {
        Some(subvec(t, 1, n - 1))
    } else {
        None
    }
}

/// The pieces of `v` split at `:`, as strings.
fn split_colon_strings(v: &Vec<char>) -> (r: Vec<String>)
    ensures
        string_views(r@) == split_on(v@, ':'),
{
    let pieces = split_chars(v, ':');
    let mut out: Vec<String> = Vec::new();
    for i in 0..pieces.len()
        invariant
            string_views(out@) == views(pieces@).take(i as int),
    {
        let ghost before = string_views(out@);
        let piece = string_of(&pieces[i]);
        assert(piece@ == views(pieces@)[i as int]);
        out.push(piece);
        assert(views(pieces@).take(i + 1) =~= views(pieces@).take(i as int).push(piece@));
        assert(string_views(out@) =~= views(pieces@).take(i + 1));
    }
    assert(views(pieces@).take(pieces.len() as int) =~= views(pieces@));
    out
}

struct OvpnState {
    preview: OvpnPreview,
    inside: Option<Vec<char>>,
    saw_any: bool,
}

pub open spec fn vec_opt_view(o: Option<Vec<char>>) -> Option<Seq<char>> {
    match o {
        Some(v) => Some(v@),
        None => None,
    }
}

impl View for OvpnState {
    type V = OvpnScan;

    closed spec fn view(&self) -> OvpnScan {
        OvpnScan { inside: vec_opt_view(self.inside), saw_any: self.saw_any, ..self.preview@ }
    }
}

impl OvpnState {
    fn directive(&mut self, w: &Vec<Vec<char>>)
        requires
            w.len() >= 1,
        ensures
            final(self)@ == ovpn_directive(old(self)@, views(w@)),
    {
        let keyword = &w[0];
        let ghost wv = views(w@);
        if eq_str(keyword, "remote") {
            if w.len() >= 2 {
                let port = if w.len() >= 3 {
                    parse_u16_chars(&w[2])
                } else {
                    None
                };
                let ghost before = remote_views(self.preview.remotes@);
                self.preview.remotes.push(Remote { host: string_of(&w[1]), port });
                assert(remote_views(self.preview.remotes@) =~= before.push(
                    RemoteView { host: wv[1], port },
                ));
            }
        } else if eq_str(keyword, "proto") {
            self.preview.proto = if w.len() >= 2 {
                Some(string_of(&w[1]))
            } else {
                None
            };
        } else if eq_str(keyword, "cipher") {
            self.preview.cipher = if w.len() >= 2 {
                Some(string_of(&w[1]))
            } else {
                None
            };
        } else if eq_str(keyword, "data-ciphers") {
            if w.len() >= 2 {
                self.preview.data_ciphers = split_colon_strings(&w[1]);
            }
        } else if eq_str(keyword, "auth-user-pass") {
            self.preview.auth_user_pass = true;
        }
    }

    fn open_block(&mut self, tag: Vec<char>)
        ensures
            final(self)@ == ovpn_open_block(old(self)@, tag@),
    {
        if eq_str(&tag, "ca") {
            self.preview.has_inline_ca = true;
        } else if eq_str(&tag, "cert") {
            self.preview.has_inline_cert = true;
        } else if eq_str(&tag, "key") {
            self.preview.has_inline_key = true;
        } else if eq_str(&tag, "tls-auth") {
            self.preview.has_inline_tls_auth = true;
        } else if eq_str(&tag, "tls-crypt") {
            self.preview.has_inline_tls_crypt = true;
        }
        self.inside = Some(tag);
        self.saw_any = true;
    }

    fn step(&mut self, raw: &Vec<char>)
        ensures
            final(self)@ == ovpn_step(old(self)@, raw@),
    {
        let t = trim_chars(raw);
        match &self.inside {
            Some(tag) => {
                if is_closing_tag(&t, tag) {
                    self.inside = None;
                }
                return ;
            },
            None => {},
        }
        match open_tag(&t) {
            Some(tag) => {
                self.open_block(tag);
            },
            None => {
                let clean = strip_comment_chars(&t);
                if clean.len() == 0 {
                    return ;
                }
                self.saw_any = true;
                let w = words_chars(&clean);
                if w.len() == 0 {
                    return ;
                }
                self.directive(&w);
            },
        }
    }
}

/// Parses the contents `raw` of the OpenVPN config at `path` for preview
/// purposes. Fails only when the file holds no directive and no inline block.
pub fn parse_conf(path: &str, raw: &str) -> (r: Result<OvpnPreview, Error>)
    ensures
        r matches Ok(p) ==> ovpn_result(path@, raw@).saw_any && p@ == ovpn_preview(path@, raw@)
            && p.source@ == path@,
        r matches Err(e) ==> !ovpn_result(path@, raw@).saw_any && (e matches Error::InvalidConfig {
            path: p,
            context: c,
        } && p@ == path@ && c@ == "no OpenVPN directives found"@),
{
    let chars = chars_of(raw);
    let ls = lines_chars(&chars);
    let mut st = OvpnState {
        preview: OvpnPreview {
            source: path.to_owned(),
            remotes: Vec::new(),
            proto: None,
            cipher: None,
            data_ciphers: Vec::new(),
            auth_user_pass: false,
            has_inline_ca: false,
            has_inline_cert: false,
            has_inline_key: false,
            has_inline_tls_auth: false,
            has_inline_tls_crypt: false,
        },
        inside: None,
        saw_any: false,
    };
    assert(views(ls@).take(0) =~= Seq::<Seq<char>>::empty());
    assert(remote_views(st.preview.remotes@) =~= Seq::<RemoteView>::empty());
    assert(string_views(st.preview.data_ciphers@) =~= Seq::<Seq<char>>::empty());
    assert(st@ =~= ovpn_scan_start(path@));
    for i in 0..ls.len()
        invariant
            st@ == ovpn_scan(path@, views(ls@).take(i as int)),
            st@.source == path@,
    {
        assert(views(ls@).take(i + 1).drop_last() =~= views(ls@).take(i as int));
        st.step(&ls[i]);
    }
    assert(views(ls@).take(ls.len() as int) =~= views(ls@));
    if !st.saw_any {
        return Err(
            Error::InvalidConfig {
                path: path.to_owned(),
                context: "no OpenVPN directives found".to_owned(),
            },
        );
    }
    Ok(st.preview)
}

impl OvpnPreview {
    /// Default connection name: the file stem of the source path, or
    /// `openvpn` where the path has none.
    pub fn suggested_name(&self) -> (name: String)
        ensures
            name@ == match file_stem_of(self.source@) {
                Some(stem) => stem,
                None => "openvpn"@,
            },
    {
        match file_stem(self.source.as_str()) {
            Some(stem) => stem,
            None => "openvpn".to_owned(),
        }
    }
}


/// The preview line of a `remote` directive.
pub open spec fn remote_line(r: RemoteView) -> Seq<char> {
    "  remote      "@ + r.host + match r.port {
        Some(p) => ":"@ + decimal(p as nat),
        None => Seq::empty(),
    } + "\n"@
}

pub open spec fn remote_lines(rs: Seq<RemoteView>) -> Seq<char>
    decreases rs.len(),
{
    if rs.len() == 0 {
        Seq::empty()
    } else {
        remote_lines(rs.drop_last()) + remote_line(rs.last())
    }
}

/// The inline blocks present, in a fixed order.
pub open spec fn inline_blocks(v: OvpnScan) -> Seq<Seq<char>> {
    (if v.has_inline_ca { seq!["ca"@] } else { Seq::empty() }) + (if v.has_inline_cert {
        seq!["cert"@]
    } else {
        Seq::empty()
    }) + (if v.has_inline_key { seq!["key"@] } else { Seq::empty() }) + (if v.has_inline_tls_auth {
        seq!["tls-auth"@]
    } else {
        Seq::empty()
    }) + (if v.has_inline_tls_crypt { seq!["tls-crypt"@] } else { Seq::empty() })
}

/// The import preview of an OpenVPN config: the remotes, the protocol, the
/// data ciphers (or else the cipher), the kind of authentication and the
/// inline blocks present.
pub open spec fn ovpn_preview_text(v: OvpnScan) -> Seq<char> {
    "OpenVPN config preview: "@ + v.source + "\n"@ + remote_lines(v.remotes) + opt_line(
        "  proto       "@,
        v.proto,
    ) + (if v.data_ciphers.len() > 0 {
        list_line("  ciphers     "@, v.data_ciphers)
    } else {
        opt_line("  cipher      "@, v.cipher)
    }) + "  auth        "@ + (if v.auth_user_pass {
        "username/password"@
    } else {
        "certificate"@
    }) + "\n"@ + list_line("  inline      "@, inline_blocks(v))
}

impl OvpnPreview {
    /// The import preview.
    pub fn preview_text(&self) -> (s: String)
        ensures
            s@ == ovpn_preview_text(self@),
    {
        let ghost v = self@;
        let mut s = "OpenVPN config preview: ".to_owned();
        s.append(self.source.as_str());
        s.append("\n");
        let ghost head = s@;
        assert(remote_views(self.remotes@).take(0) =~= Seq::<RemoteView>::empty());
        for i in 0..self.remotes.len()
            invariant
                v == self@,
                s@ == head + remote_lines(remote_views(self.remotes@).take(i as int)),
        {
            let r = &self.remotes[i];
            let ghost rv = remote_views(self.remotes@);
            assert(rv.take(i + 1).drop_last() =~= rv.take(i as int));
            assert(rv.take(i + 1).last() == r@);
            let ghost before = s@;
            s.append("  remote      ");
            s.append(r.host.as_str());
            match r.port {
                Some(p) => {
                    s.append(":");
                    let d = decimal_string(p as u64);
                    s.append(d.as_str());
                },
                None => {},
            }
            s.append("\n");
            assert(s@ =~= before + remote_line(r@));
        }
        assert(remote_views(self.remotes@).take(self.remotes.len() as int) =~= remote_views(self.remotes@));
        push_opt_line(&mut s, "  proto       ", &self.proto);
        if self.data_ciphers.len() > 0 {
            push_list_line(&mut s, "  ciphers     ", &self.data_ciphers);
        } else {
            push_opt_line(&mut s, "  cipher      ", &self.cipher);
        }
        s.append("  auth        ");
        s.append(if self.auth_user_pass { "username/password" } else { "certificate" });
        s.append("\n");
        let mut present: Vec<String> = Vec::new();
        if self.has_inline_ca {
            present.push("ca".to_owned());
        }
        if self.has_inline_cert {
            present.push("cert".to_owned());
        }
        if self.has_inline_key {
            present.push("key".to_owned());
        }
        if self.has_inline_tls_auth {
            present.push("tls-auth".to_owned());
        }
        if self.has_inline_tls_crypt {
            present.push("tls-crypt".to_owned());
        }
        assert(string_views(present@) =~= inline_blocks(v));
        push_list_line(&mut s, "  inline      ", &present);
        assert(s@ =~= ovpn_preview_text(v));
        s
    }
}

} // verus!
