//! WireGuard `.conf` parsing.
//!
//! Not a full parser: `nmcli connection import` does the real import. Only the
//! fields shown in the import preview are extracted. The parser is tolerant:
//! it ignores unknown keys, blank lines and `#` / `;` comments, and fails only
//! when the file has no `[Interface]` or `[Peer]` section.
use vstd::prelude::*;

use crate::error::Error;
use crate::path::{file_stem, file_stem_of};
use crate::text::{
    list_line, opt_line, push_list_line, push_opt_line,
    ascii_lower, chars_of, eq_ignore_ascii_case, find_char, index_of_char, lines, lines_chars,
    split_chars, split_on, string_of, string_views, strip_comment, strip_comment_chars, subvec,
    trim, trim_chars, views,
};

verus! {

/// What the import preview shows of a WireGuard config.
#[derive(Debug, Default, Clone)]
pub struct WgPreview {
    pub source: String,
    pub addresses: Vec<String>,
    pub dns: Vec<String>,
    pub peer_public_key: Option<String>,
    pub endpoint: Option<String>,
    pub allowed_ips: Vec<String>,
}

pub struct WgPreviewView {
    pub source: Seq<char>,
    pub addresses: Seq<Seq<char>>,
    pub dns: Seq<Seq<char>>,
    pub peer_public_key: Option<Seq<char>>,
    pub endpoint: Option<Seq<char>>,
    pub allowed_ips: Seq<Seq<char>>,
}

pub open spec fn opt_view(o: Option<String>) -> Option<Seq<char>> {
    match o {
        Some(s) => Some(s@),
        None => None,
    }
}

impl View for WgPreview {
    type V = WgPreviewView;

    open spec fn view(&self) -> WgPreviewView {
        WgPreviewView {
            source: self.source@,
            addresses: string_views(self.addresses@),
            dns: string_views(self.dns@),
            peer_public_key: opt_view(self.peer_public_key),
            endpoint: opt_view(self.endpoint),
            allowed_ips: string_views(self.allowed_ips@),
        }
    }
}

/// The section a line belongs to.
#[derive(Debug, Clone, Copy, PartialEq, Eq, Structural)]
pub enum Section {
    Other,
    Interface,
    Peer,
}

/// What the parser knows after reading some lines.
pub struct WgScan {
    pub section: Section,
    pub saw_known_section: bool,
    pub addresses: Seq<Seq<char>>,
    pub dns: Seq<Seq<char>>,
    pub peer_public_key: Option<Seq<char>>,
    pub endpoint: Option<Seq<char>>,
    pub allowed_ips: Seq<Seq<char>>,
}

pub open spec fn wg_scan_start() -> WgScan {
    WgScan {
        section: Section::Other,
        saw_known_section: false,
        addresses: Seq::empty(),
        dns: Seq::empty(),
        peer_public_key: None,
        endpoint: None,
        allowed_ips: Seq::empty(),
    }
}

/// `[name]` gives `name`.
pub open spec fn section_header(line: Seq<char>) -> Option<Seq<char>> {
    if line.len() >= 2 && line[0] == '[' && line.last() == ']' {
        Some(line.subrange(1, line.len() - 1))
    } else {
        None
    }
}

/// A comma-separated list: each item trimmed, empty items dropped.
pub open spec fn split_csv(value: Seq<char>) -> Seq<Seq<char>> {
    split_on(value, ',').map_values(|p: Seq<char>| trim(p)).filter(|p: Seq<char>| p.len() > 0)
}

/// The effect of one `key = value` line.
pub open spec fn wg_assign(st: WgScan, key: Seq<char>, value: Seq<char>) -> WgScan {
    match st.section {
        Section::Interface => if key == "address"@ {
            WgScan { addresses: st.addresses + split_csv(value), ..st }
        } else if key == "dns"@ {
            WgScan { dns: st.dns + split_csv(value), ..st }
        } else {
            st
        },
        Section::Peer => if key == "publickey"@ {
            WgScan { peer_public_key: Some(value), ..st }
        } else if key == "endpoint"@ {
            WgScan { endpoint: Some(value), ..st }
        } else if key == "allowedips"@ {
            WgScan { allowed_ips: st.allowed_ips + split_csv(value), ..st }
        } else {
            st
        },
        Section::Other => st,
    }
}

/// The effect of one line of the file.
pub open spec fn wg_step(st: WgScan, raw: Seq<char>) -> WgScan {
    let line = trim(strip_comment(raw));
    if line.len() == 0 {
        st
    } else if section_header(line) is Some {
        let name = ascii_lower(section_header(line)->0);
        if name == "interface"@ {
            WgScan { section: Section::Interface, saw_known_section: true, ..st }
        } else if name == "peer"@ {
            WgScan { section: Section::Peer, saw_known_section: true, ..st }
        } else {
            WgScan { section: Section::Other, ..st }
        }
    } else {
        let eq = index_of_char(line, '=');
        if eq >= line.len() {
            st
        } else {
            wg_assign(st, ascii_lower(trim(line.take(eq))), trim(line.skip(eq + 1)))
        }
    }
}

/// The parser's knowledge after reading `lines` in order.
pub open spec fn wg_scan(lines: Seq<Seq<char>>) -> WgScan
    decreases lines.len(),
{
    if lines.len() == 0 {
        wg_scan_start()
    } else {
        wg_step(wg_scan(lines.drop_last()), lines.last())
    }
}

/// The preview of the file at `path` with contents `raw`, provided it has a
/// known section.
pub open spec fn wg_preview(path: Seq<char>, raw: Seq<char>) -> WgPreviewView {
    let st = wg_scan(lines(raw));
    WgPreviewView {
        source: path,
        addresses: st.addresses,
        dns: st.dns,
        peer_public_key: st.peer_public_key,
        endpoint: st.endpoint,
        allowed_ips: st.allowed_ips,
    }
}

pub open spec fn wg_has_section(raw: Seq<char>) -> bool {
    wg_scan(lines(raw)).saw_known_section
}

/// The parser's state, as exec values.
struct WgState {
    section: Section,
    saw_known_section: bool,
    addresses: Vec<String>,
    dns: Vec<String>,
    peer_public_key: Option<String>,
    endpoint: Option<String>,
    allowed_ips: Vec<String>,
}

impl View for WgState {
    type V = WgScan;

    closed spec fn view(&self) -> WgScan {
        WgScan {
            section: self.section,
            saw_known_section: self.saw_known_section,
            addresses: string_views(self.addresses@),
            dns: string_views(self.dns@),
            peer_public_key: opt_view(self.peer_public_key),
            endpoint: opt_view(self.endpoint),
            allowed_ips: string_views(self.allowed_ips@),
        }
    }
}

/// Appends the items of a comma-separated list to `out`.
fn extend_csv(out: &mut Vec<String>, value: &Vec<char>)
    ensures
        string_views(final(out)@) == string_views(old(out)@) + split_csv(value@),
{
    let pieces = split_chars(value, ',');
    let ghost trimmed = views(pieces@).map_values(|p: Seq<char>| trim(p));
    let ghost keep = |p: Seq<char>| p.len() > 0;
    let ghost start = string_views(out@);
    assert(trimmed.take(0).filter(keep) =~= Seq::<Seq<char>>::empty()) by {
        reveal(Seq::filter);
    }
    assert(start + Seq::<Seq<char>>::empty() =~= start);
    for i in 0..pieces.len()
        invariant
            trimmed == views(pieces@).map_values(|p: Seq<char>| trim(p)),
            keep == (|p: Seq<char>| p.len() > 0),
            string_views(out@) == start + trimmed.take(i as int).filter(keep),
    {
        let t = trim_chars(&pieces[i]);
        assert(trimmed[i as int] == t@);
        assert(trimmed.take(i + 1) =~= trimmed.take(i as int).push(t@));
        proof {
            trimmed.take(i as int).lemma_filter_push(t@, keep);
        }
        if t.len() > 0 {
            let ghost before = string_views(out@);
            let s = string_of(&t);
            out.push(s);
            assert(string_views(out@) =~= before.push(t@));
        }
    }
    assert(trimmed.take(pieces.len() as int) =~= trimmed);
}

/// `[name]`, if the line is a section header.
fn header_name(t: &Vec<char>) -> (r: Option<Vec<char>>)
    ensures
        r matches Some(n) ==> section_header(t@) == Some(n@),
        r is None ==> section_header(t@) is None,
{
    let n = t.len();
    if n >= 2 && t[0] == '[' && t[n - 1] == ']' {
        Some(subvec(t, 1, n - 1))
    } else {
        None
    }
}

impl WgState {
    fn new() -> (st: WgState)
        ensures
            st@ == wg_scan_start(),
    {
        let st = WgState {
            section: Section::Other,
            saw_known_section: false,
            addresses: Vec::new(),
            dns: Vec::new(),
            peer_public_key: None,
            endpoint: None,
            allowed_ips: Vec::new(),
        };
        assert(st@.addresses =~= Seq::<Seq<char>>::empty());
        assert(st@.dns =~= Seq::<Seq<char>>::empty());
        assert(st@.allowed_ips =~= Seq::<Seq<char>>::empty());
        st
    }

    fn assign(&mut self, key: &Vec<char>, value: &Vec<char>)
        ensures
            final(self)@ == wg_assign(old(self)@, ascii_lower(key@), value@),
    {
        match self.section {
            Section::Interface => {
                if eq_ignore_ascii_case(key, "address") {
                    extend_csv(&mut self.addresses, value);
                } else if eq_ignore_ascii_case(key, "dns") {
                    extend_csv(&mut self.dns, value);
                }
            },
            Section::Peer => {
                if eq_ignore_ascii_case(key, "publickey") {
                    self.peer_public_key = Some(string_of(value));
                } else if eq_ignore_ascii_case(key, "endpoint") {
                    self.endpoint = Some(string_of(value));
                } else if eq_ignore_ascii_case(key, "allowedips") {
                    extend_csv(&mut self.allowed_ips, value);
                }
            },
            Section::Other => {},
        }
    }

    fn step(&mut self, raw: &Vec<char>)
        ensures
            final(self)@ == wg_step(old(self)@, raw@),
    {
        let stripped = strip_comment_chars(raw);
        let line = trim_chars(&stripped);
        if line.len() == 0 {
            return ;
        }
        match header_name(&line) {
            Some(name) => {
                if eq_ignore_ascii_case(&name, "interface") {
                    self.section = Section::Interface;
                    self.saw_known_section = true;
                } else if eq_ignore_ascii_case(&name, "peer") {
                    self.section = Section::Peer;
                    self.saw_known_section = true;
                } else {
                    self.section = Section::Other;
                }
            },
            None => {
                let eq = find_char(&line, '=');
                if eq >= line.len() {
                    return ;
                }
                let key = trim_chars(&subvec(&line, 0, eq));
                let value = trim_chars(&subvec(&line, eq + 1, line.len()));
                assert(line@.take(eq as int) =~= line@.subrange(0, eq as int));
                assert(line@.skip(eq + 1) =~= line@.subrange(eq + 1, line@.len() as int));
                self.assign(&key, &value);
            },
        }
    }
}

/// Parses the contents `raw` of the WireGuard config at `path` for preview
/// purposes.
pub fn parse_conf(path: &str, raw: &str) -> (r: Result<WgPreview, Error>)
    ensures
        r matches Ok(p) ==> wg_has_section(raw@) && p@ == wg_preview(path@, raw@),
        r matches Err(e) ==> !wg_has_section(raw@) && (e matches Error::InvalidConfig {
            path: p,
            context: c,
        } && p@ == path@ && c@ == "no [Interface] or [Peer] section found"@),
{
    let chars = chars_of(raw);
    let ls = lines_chars(&chars);
    let mut st = WgState::new();
    assert(views(ls@).take(0) =~= Seq::<Seq<char>>::empty());
    for i in 0..ls.len()
        invariant
            st@ == wg_scan(views(ls@).take(i as int)),
    {
        assert(views(ls@).take(i + 1).drop_last() =~= views(ls@).take(i as int));
        st.step(&ls[i]);
    }
    assert(views(ls@).take(ls.len() as int) =~= views(ls@));
    if !st.saw_known_section {
        return Err(
            Error::InvalidConfig {
                path: path.to_owned(),
                context: "no [Interface] or [Peer] section found".to_owned(),
            },
        );
    }
    Ok(
        WgPreview {
            source: path.to_owned(),
            addresses: st.addresses,
            dns: st.dns,
            peer_public_key: st.peer_public_key,
            endpoint: st.endpoint,
            allowed_ips: st.allowed_ips,
        },
    )
}

impl WgPreview {
    /// Default connection name: the file stem of the source path, or
    /// `wireguard` where the path has none.
    pub fn suggested_name(&self) -> (name: String)
        ensures
            name@ == match file_stem_of(self.source@) {
                Some(stem) => stem,
                None => "wireguard"@,
            },
    {
        match file_stem(self.source.as_str()) {
            Some(stem) => stem,
            None => "wireguard".to_owned(),
        }
    }
}


/// The import preview of a WireGuard config.
pub open spec fn wg_preview_text(p: WgPreviewView) -> Seq<char> {
    "WireGuard config preview: "@ + p.source + "\n"@ + list_line("  address     "@, p.addresses)
        + list_line("  dns         "@, p.dns) + opt_line("  endpoint    "@, p.endpoint) + opt_line(
        "  peer key    "@,
        p.peer_public_key,
    ) + list_line("  allowed ips "@, p.allowed_ips)
}

impl WgPreview {
    /// The import preview: the source, then one line per field that is set.
    pub fn preview_text(&self) -> (s: String)
        ensures
            s@ == wg_preview_text(self@),
    {
        let mut s = "WireGuard config preview: ".to_owned();
        s.append(self.source.as_str());
        s.append("\n");
        push_list_line(&mut s, "  address     ", &self.addresses);
        push_list_line(&mut s, "  dns         ", &self.dns);
        push_opt_line(&mut s, "  endpoint    ", &self.endpoint);
        push_opt_line(&mut s, "  peer key    ", &self.peer_public_key);
        push_list_line(&mut s, "  allowed ips ", &self.allowed_ips);
        s
    }
}

} // verus!
