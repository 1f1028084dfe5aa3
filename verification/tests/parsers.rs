use byt::error::Error;
use byt::vpn::nmcli::parse_name_type;
use byt::vpn::openvpn;
use byt::vpn::wireguard;

#[test]
fn parses_terse_line() {
    assert_eq!(parse_name_type("home-vpn:wireguard"), Some(("home-vpn", "wireguard")));
    assert_eq!(parse_name_type("wired:802-3-ethernet"), Some(("wired", "802-3-ethernet")));
    assert_eq!(parse_name_type(""), None);
}

#[test]
fn parses_userpass_with_inline_blocks() {
    let body = r#"
            client
            dev tun
            remote vpn-1.example.com 1194
            remote vpn-2.example.com 1194
            proto udp
            cipher CHACHA20-POLY1305
            data-ciphers CHACHA20-POLY1305:AES-256-GCM
            auth-user-pass

            <ca>
            -----BEGIN CERTIFICATE-----
            PLACEHOLDER
            -----END CERTIFICATE-----
            </ca>

            <tls-auth>
            -----BEGIN OpenVPN Static key V1-----
            PLACEHOLDER
            -----END OpenVPN Static key V1-----
            </tls-auth>
            "#;
    let p = openvpn::parse_conf("/tmp/provider.ovpn", body).unwrap();
    assert_eq!(p.remotes.len(), 2);
    assert_eq!(p.remotes[0].host, "vpn-1.example.com");
    assert_eq!(p.remotes[0].port, Some(1194));
    assert_eq!(p.proto.as_deref(), Some("udp"));
    assert_eq!(p.cipher.as_deref(), Some("CHACHA20-POLY1305"));
    assert_eq!(p.data_ciphers, vec!["CHACHA20-POLY1305", "AES-256-GCM"]);
    assert!(p.auth_user_pass);
    assert!(p.has_inline_ca);
    assert!(p.has_inline_tls_auth);
    assert!(!p.has_inline_cert);
}

#[test]
fn parses_cert_auth() {
    let body = r"
            client
            dev tun
            remote vpn.example.com 1194
            proto udp

            <ca>
            PLACEHOLDER
            </ca>
            <cert>
            PLACEHOLDER
            </cert>
            <key>
            PLACEHOLDER
            </key>
            ";
    let p = openvpn::parse_conf("/tmp/provider.ovpn", body).unwrap();
    assert!(!p.auth_user_pass);
    assert!(p.has_inline_ca && p.has_inline_cert && p.has_inline_key);
}

#[test]
fn ignores_comments() {
    let p = openvpn::parse_conf("/tmp/c.ovpn", "# header\nclient\n; aside\nproto tcp\n").unwrap();
    assert_eq!(p.proto.as_deref(), Some("tcp"));
}

#[test]
fn parses_typical_provider_conf() {
    let body = r#"
            [Interface]
            PrivateKey = abc=
            Address = 10.2.0.2/32, fd00::2/128
            DNS = 10.2.0.1, 1.1.1.1

            [Peer]
            PublicKey = xyz=
            AllowedIPs = 0.0.0.0/0, ::/0
            Endpoint = vpn.example.com:51820
            "#;
    let p = wireguard::parse_conf("/tmp/provider.conf", body).unwrap();
    assert_eq!(p.addresses, vec!["10.2.0.2/32", "fd00::2/128"]);
    assert_eq!(p.dns, vec!["10.2.0.1", "1.1.1.1"]);
    assert_eq!(p.peer_public_key.as_deref(), Some("xyz="));
    assert_eq!(p.endpoint.as_deref(), Some("vpn.example.com:51820"));
    assert_eq!(p.allowed_ips, vec!["0.0.0.0/0", "::/0"]);
}

#[test]
fn ignores_comments_and_blanks() {
    let p = wireguard::parse_conf(
        "/tmp/c.conf",
        "# header\n\n[Interface]\n; aside\nAddress = 10.0.0.2/32\n",
    )
    .unwrap();
    assert_eq!(p.addresses, vec!["10.0.0.2/32"]);
}

#[test]
fn rejects_file_with_no_sections() {
    assert!(matches!(
        wireguard::parse_conf("/tmp/c.conf", "Address = 10.0.0.2/32\n"),
        Err(Error::InvalidConfig { .. })
    ));
}

// ---------------------------------------------------------------------------

#[test]
fn wireguard_error_names_path_and_reason() {
    match wireguard::parse_conf("/etc/x.conf", "; nothing here\n\n") {
        Err(Error::InvalidConfig { path, context }) => {
            assert_eq!(path, "/etc/x.conf");
            assert_eq!(context, "no [Interface] or [Peer] section found");
        }
        other => panic!("unexpected {other:?}"),
    }
}

#[test]
fn wireguard_keys_and_sections_ignore_case_and_unknown_sections_reset() {
    let body = "[INTERFACE]\nADDRESS=10.0.0.1/24,,  ,10.0.0.9/24\n[Other]\nDNS = 9.9.9.9\n[peer]\nendpoint = e:1 # trailing comment\nPublicKey = k=\n";
    let p = wireguard::parse_conf("/tmp/a.conf", body).unwrap();
    assert_eq!(p.addresses, vec!["10.0.0.1/24", "10.0.0.9/24"]);
    assert!(p.dns.is_empty());
    assert_eq!(p.endpoint.as_deref(), Some("e:1"));
    assert_eq!(p.peer_public_key.as_deref(), Some("k="));
}

#[test]
fn wireguard_keys_outside_their_section_are_ignored() {
    let p = wireguard::parse_conf("/tmp/a.conf", "[Peer]\nAddress = 1.2.3.4/32\n[Interface]\nEndpoint = h:1\n").unwrap();
    assert!(p.addresses.is_empty());
    assert_eq!(p.endpoint, None);
}

#[test]
fn wireguard_crlf_lines() {
    let p = wireguard::parse_conf("/tmp/a.conf", "[Interface]\r\nDNS = 1.1.1.1\r\n").unwrap();
    assert_eq!(p.dns, vec!["1.1.1.1"]);
}

#[test]
fn wireguard_suggested_name_is_file_stem() {
    let p = wireguard::parse_conf("/home/u/vpn/office.conf", "[Interface]\n").unwrap();
    assert_eq!(p.suggested_name(), "office");
    let q = wireguard::parse_conf("/", "[Interface]\n").unwrap();
    assert_eq!(q.suggested_name(), "wireguard");
}

#[test]
fn wireguard_preview_text() {
    let body = "[Interface]\nAddress = 10.0.0.2/32, fd00::2/128\nDNS = 10.0.0.1\n[Peer]\nPublicKey = xyz=\nEndpoint = vpn.example.com:51820\nAllowedIPs = 0.0.0.0/0\n";
    let p = wireguard::parse_conf("/tmp/wg0.conf", body).unwrap();
    assert_eq!(
        p.preview_text(),
        "WireGuard config preview: /tmp/wg0.conf\n  address     10.0.0.2/32, fd00::2/128\n  dns         10.0.0.1\n  endpoint    vpn.example.com:51820\n  peer key    xyz=\n  allowed ips 0.0.0.0/0\n"
    );
    let bare = wireguard::parse_conf("/tmp/wg1.conf", "[Peer]\n").unwrap();
    assert_eq!(bare.preview_text(), "WireGuard config preview: /tmp/wg1.conf\n");
}

#[test]
fn openvpn_rejects_empty_file() {
    match openvpn::parse_conf("/tmp/e.ovpn", "# only\n; comments\n\n") {
        Err(Error::InvalidConfig { path, context }) => {
            assert_eq!(path, "/tmp/e.ovpn");
            assert_eq!(context, "no OpenVPN directives found");
        }
        other => panic!("unexpected {other:?}"),
    }
}

#[test]
fn openvpn_ports_and_inline_contents() {
    let body = "remote a.example 70000\nremote b.example +443\nremote c.example -1\nremote d.example\n<key>\nremote hidden.example 1\n</key>\nremote\nproto\n";
    let p = openvpn::parse_conf("/tmp/p.ovpn", body).unwrap();
    let hosts: Vec<&str> = p.remotes.iter().map(|r| r.host.as_str()).collect();
    assert_eq!(hosts, vec!["a.example", "b.example", "c.example", "d.example"]);
    let ports: Vec<Option<u16>> = p.remotes.iter().map(|r| r.port).collect();
    assert_eq!(ports, vec![None, Some(443), None, None]);
    assert!(p.has_inline_key);
    assert_eq!(p.proto, None);
}

#[test]
fn openvpn_data_ciphers_keep_empty_pieces_and_comments_cut_lines() {
    let p = openvpn::parse_conf("/tmp/p.ovpn", "data-ciphers A::B ; tail\ncipher X # c\n").unwrap();
    assert_eq!(p.data_ciphers, vec!["A", "", "B"]);
    assert_eq!(p.cipher.as_deref(), Some("X"));
}

#[test]
fn openvpn_preview_text() {
    let body = "remote vpn.example.com 1194\nremote backup.example.com\nproto udp\ncipher AES-256-GCM\nauth-user-pass\n<ca>\nx\n</ca>\n<tls-crypt>\ny\n</tls-crypt>\n";
    let p = openvpn::parse_conf("/tmp/o.ovpn", body).unwrap();
    assert_eq!(
        p.preview_text(),
        "OpenVPN config preview: /tmp/o.ovpn\n  remote      vpn.example.com:1194\n  remote      backup.example.com\n  proto       udp\n  cipher      AES-256-GCM\n  auth        username/password\n  inline      ca, tls-crypt\n"
    );
    let q = openvpn::parse_conf("/tmp/q.ovpn", "data-ciphers A:B\ncipher C\n").unwrap();
    assert_eq!(
        q.preview_text(),
        "OpenVPN config preview: /tmp/q.ovpn\n  ciphers     A, B\n  auth        certificate\n"
    );
}

#[test]
fn openvpn_suggested_name() {
    let p = openvpn::parse_conf("/srv/cfg/work.ovpn", "client\n").unwrap();
    assert_eq!(p.suggested_name(), "work");
    let q = openvpn::parse_conf("/srv/cfg/..", "client\n").unwrap();
    assert_eq!(q.suggested_name(), "openvpn");
}

#[test]
fn suggested_names_follow_the_file_stem_rules() {
    let stem = |path: &str| wireguard::parse_conf(path, "[Interface]\n").unwrap().suggested_name();
    assert_eq!(stem("home.conf"), "home");
    assert_eq!(stem("/etc/wireguard/a.b.conf"), "a.b");
    assert_eq!(stem("/etc/wireguard/.hidden"), ".hidden");
    assert_eq!(stem("noext"), "noext");
    assert_eq!(stem("trailing."), "trailing");
    assert_eq!(stem("dir/sub/"), "sub");
    assert_eq!(stem("dir//x.conf/."), "x");
    assert_eq!(stem("a/./b.conf"), "b");
    assert_eq!(stem("..."), "..");
    assert_eq!(stem("a/.."), "wireguard");
    assert_eq!(stem("."), "wireguard");
    assert_eq!(stem(""), "wireguard");
    let ovpn = openvpn::parse_conf("/tmp/x/..", "client\n").unwrap();
    assert_eq!(ovpn.suggested_name(), "openvpn");
}
