use next_socks5::{
    apply_overrides, default_handshake_ms, default_true, default_udp_max_targets,
    is_valid_dns_name, parse_advertise_host, AdminConfig, AdvertiseHost, AuthConfig, AuthMethod,
    Cli, Config, Egress, IpAddress, Limits, PortRange, Timeouts, UdpConfig, User,
    DEFAULT_ADMIN_SOCKET,
};

fn v4(a: u8, b: u8, c: u8, d: u8) -> IpAddress {
    IpAddress::V4([a, b, c, d])
}

fn v6(s: [u16; 8]) -> IpAddress {
    IpAddress::V6(s)
}

/// The IPv4-mapped form `::ffff:a.b.c.d`.
fn mapped(a: u8, b: u8, c: u8, d: u8) -> IpAddress {
    v6([0, 0, 0, 0, 0, 0xffff, u16::from_be_bytes([a, b]), u16::from_be_bytes([c, d])])
}

/// The IPv4-compatible form `::a.b.c.d`.
fn compatible(a: u8, b: u8, c: u8, d: u8) -> IpAddress {
    v6([0, 0, 0, 0, 0, 0, u16::from_be_bytes([a, b]), u16::from_be_bytes([c, d])])
}

/// `[udp].advertise` text that no address parser accepts.
fn advertise_name(s: &str) -> Result<AdvertiseHost, String> {
    parse_advertise_host(s, None, None)
}

/// The configuration that the example TOML file describes.
fn example_config() -> Config {
    let mut cfg = Config::default_config();
    cfg.auth.method = AuthMethod::Password;
    cfg.auth.users = vec![User {
        username: "alice".to_string(),
        password: "secret".to_string(),
    }];
    cfg.limits.max_connections = Some(1024);
    cfg
}

fn no_overrides() -> Cli {
    Cli {
        command: None,
        config: None,
        listen: None,
        no_tui: false,
        no_admin: false,
        admin_socket: None,
        mock: false,
    }
}

#[test]
fn defaults_fill_when_sections_omitted() {
    let mut cfg = Config::default_config();
    cfg.listen = "0.0.0.0:1080".to_string();
    assert_eq!(cfg.listen, "0.0.0.0:1080");
    assert_eq!(cfg.auth.method, AuthMethod::NoAuth);
    assert!(cfg.auth.users.is_empty());
    assert_eq!(cfg.timeouts, Timeouts::default());
    assert_eq!(cfg.limits.max_connections, None);
    assert_eq!(cfg.udp, UdpConfig::default());
}

#[test]
fn cli_listen_override_replaces_listen() {
    let mut cfg = example_config();
    let cli = Cli {
        command: None,
        config: None,
        listen: Some("0.0.0.0:9999".to_string()),
        no_tui: false,
        no_admin: false,
        admin_socket: None,
        mock: false,
    };
    apply_overrides(&mut cfg, &cli);
    assert_eq!(cfg.listen, "0.0.0.0:9999");
}

#[test]
fn cli_override_absent_keeps_listen() {
    let mut cfg = example_config();
    let cli = no_overrides();
    apply_overrides(&mut cfg, &cli);
    assert_eq!(cfg.listen, "127.0.0.1:1080");
}

#[test]
fn admin_defaults_enabled() {
    let cfg = Config::default_config();
    assert!(cfg.admin.enabled);
    assert_eq!(cfg.admin.socket, None);
}

#[test]
fn cli_admin_socket_override() {
    let mut cfg = Config::default_config();
    cfg.listen = "x".to_string();
    let cli = Cli {
        command: None,
        config: None,
        listen: None,
        no_tui: false,
        no_admin: true,
        admin_socket: Some("/run/x.sock".to_string()),
        mock: false,
    };
    apply_overrides(&mut cfg, &cli);
    assert!(!cfg.admin.enabled);
    assert_eq!(cfg.admin.socket.as_deref(), Some("/run/x.sock"));
}

#[test]
fn egress_default_blocks_internal_destinations() {
    let e = Egress::default();
    // Loopback, link-local (incl. cloud metadata), private, CGNAT, 0/8.
    for s in [
        ("127.0.0.1", v4(127, 0, 0, 1)),
        ("169.254.169.254", v4(169, 254, 169, 254)),
        ("10.0.0.1", v4(10, 0, 0, 1)),
        ("172.16.0.1", v4(172, 16, 0, 1)),
        ("192.168.1.1", v4(192, 168, 1, 1)),
        ("100.64.0.1", v4(100, 64, 0, 1)),
        ("0.0.0.1", v4(0, 0, 0, 1)),
        ("0.0.0.0", v4(0, 0, 0, 0)),
        ("::1", v6([0, 0, 0, 0, 0, 0, 0, 1])),
        ("fe80::1", v6([0xfe80, 0, 0, 0, 0, 0, 0, 1])),
        ("fc00::1", v6([0xfc00, 0, 0, 0, 0, 0, 0, 1])),
        ("::ffff:127.0.0.1", mapped(127, 0, 0, 1)),
        ("::ffff:169.254.169.254", mapped(169, 254, 169, 254)),
    ] {
        let (s, ip) = s;
        assert!(e.is_blocked(ip), "{s} should be blocked by default");
    }
}

#[test]
fn egress_default_allows_public_destinations() {
    let e = Egress::default();
    for (s, ip) in [
        ("8.8.8.8", v4(8, 8, 8, 8)),
        ("1.1.1.1", v4(1, 1, 1, 1)),
        ("93.184.216.34", v4(93, 184, 216, 34)),
        ("2001:4860:4860::8888", v6([0x2001, 0x4860, 0x4860, 0, 0, 0, 0, 0x8888])),
    ] {
        assert!(!e.is_blocked(ip), "{s} should be allowed by default");
    }
}

#[test]
fn egress_permissive_allows_loopback() {
    let e = Egress::permissive();
    assert!(!e.is_blocked(v4(127, 0, 0, 1)));
    assert!(!e.is_blocked(v4(10, 0, 0, 1)));
    // The unspecified address is blocked regardless of policy.
    assert!(e.is_blocked(v4(0, 0, 0, 0)));
}

#[test]
fn port_range_parses_valid() {
    assert_eq!(
        PortRange::parse("40000-40100"),
        Ok(PortRange { start: 40000, end: 40100 })
    );
}

#[test]
fn port_range_allows_single_port() {
    assert_eq!(
        PortRange::parse("40000-40000"),
        Ok(PortRange { start: 40000, end: 40000 })
    );
}

#[test]
fn port_range_rejects_malformed() {
    assert!(PortRange::parse("5000").is_err()); // no dash
    assert!(PortRange::parse("a-b").is_err()); // non-numeric
    assert!(PortRange::parse("5000-4000").is_err()); // start > end
    assert!(PortRange::parse("0-100").is_err()); // start port 0
}

#[test]
fn parses_udp_section() {
    assert_eq!(
        PortRange::parse("40000-40100"),
        Ok(PortRange { start: 40000, end: 40100 })
    );
    assert_eq!(
        parse_advertise_host("203.0.113.42", Some(v4(203, 0, 113, 42)), Some(v4(203, 0, 113, 42))),
        Ok(AdvertiseHost::Ip(v4(203, 0, 113, 42)))
    );
}

#[test]
fn udp_section_defaults_empty() {
    let cfg = Config::default_config();
    assert_eq!(cfg.udp, UdpConfig::default());
    assert_eq!(cfg.udp.port_range, None);
    assert_eq!(cfg.udp.advertise, None);
}

#[test]
fn advertise_rejects_malformed() {
    // A typo'd advertise address must fail at config load, not be silently
    // ignored at runtime.
    let res = advertise_name("bad host!");
    assert!(res.is_err(), "malformed advertise must be rejected at load");
}

#[test]
fn advertise_accepts_ip_port() {
    // An `ip:port` form is accepted; only the IP is kept (port ignored).
    assert_eq!(
        parse_advertise_host("203.0.113.42:1080", None, Some(v4(203, 0, 113, 42))),
        Ok(AdvertiseHost::Ip(v4(203, 0, 113, 42)))
    );
}

#[test]
fn advertise_accepts_domain() {
    assert_eq!(
        advertise_name("t.900040.xyz"),
        Ok(AdvertiseHost::Domain("t.900040.xyz".to_string()))
    );
}

// ---------------------------------------------------------------------------
// Further cases
// ---------------------------------------------------------------------------

#[test]
fn default_values() {
    assert!(default_true());
    assert_eq!(default_handshake_ms(), 10_000);
    assert_eq!(default_udp_max_targets(), 1024);
    assert_eq!(
        Timeouts::default(),
        Timeouts { handshake_ms: 10_000, connect_ms: 10_000, tcp_idle_ms: 300_000, udp_idle_ms: 60_000 }
    );
    assert_eq!(
        Limits::default(),
        Limits { max_connections: None, max_per_ip: None, udp_max_targets: 1024, udp_rate_pps: None }
    );
    assert_eq!(AdminConfig::default(), AdminConfig { enabled: true, socket: None });
    assert_eq!(AuthConfig::default(), AuthConfig { method: AuthMethod::NoAuth, users: vec![] });
    assert_eq!(AuthMethod::default(), AuthMethod::NoAuth);
    assert_eq!(
        Egress::default(),
        Egress { block_loopback: true, block_link_local: true, block_private: true }
    );
    assert_eq!(
        Egress::permissive(),
        Egress { block_loopback: false, block_link_local: false, block_private: false }
    );
    assert_eq!(DEFAULT_ADMIN_SOCKET, "/run/next-socks5/admin.sock");
    let cfg = Config::default_config();
    assert_eq!(cfg.listen, "127.0.0.1:1080");
    assert_eq!(cfg.egress, Egress::default());
    assert_eq!(cfg.limits, Limits::default());
}

#[test]
fn port_range_trims_and_accepts_plus_sign() {
    assert_eq!(
        PortRange::parse(" 40000 - 40100 "),
        Ok(PortRange { start: 40000, end: 40100 })
    );
    assert_eq!(
        PortRange::parse("\t+1-\u{3000}65535\n"),
        Ok(PortRange { start: 1, end: 65535 })
    );
    assert_eq!(PortRange::parse("007-08"), Ok(PortRange { start: 7, end: 8 }));
}

#[test]
fn port_range_error_messages() {
    assert_eq!(
        PortRange::parse("5000"),
        Err("expected 'start-end', got \"5000\"".to_string())
    );
    assert_eq!(PortRange::parse("a-b"), Err("invalid start port \"a\"".to_string()));
    assert_eq!(PortRange::parse("1-b "), Err("invalid end port \"b \"".to_string()));
    assert_eq!(
        PortRange::parse("5000-4000"),
        Err("start 5000 must be <= end 4000".to_string())
    );
    assert_eq!(PortRange::parse("0-100"), Err("start port must be >= 1".to_string()));
    // The first dash splits: "-5" has an empty start.
    assert_eq!(PortRange::parse("-5"), Err("invalid start port \"\"".to_string()));
    // Out of the u16 range, a bare sign, a sign on both sides.
    assert_eq!(PortRange::parse("1-65536"), Err("invalid end port \"65536\"".to_string()));
    assert_eq!(PortRange::parse("+-5"), Err("invalid start port \"+\"".to_string()));
    assert_eq!(PortRange::parse("1-2-3"), Err("invalid end port \"2-3\"".to_string()));
}

#[test]
fn port_range_round_trips_through_text() {
    for (start, end) in [(1u16, 1u16), (1, 65535), (40000, 40100), (9, 10), (65535, 65535)] {
        let text = format!("{start}-{end}");
        assert_eq!(PortRange::parse(&text), Ok(PortRange { start, end }));
    }
}

#[test]
fn dns_names() {
    assert!(is_valid_dns_name("t.900040.xyz"));
    assert!(is_valid_dns_name("t.900040.xyz."));
    assert!(is_valid_dns_name("a"));
    assert!(is_valid_dns_name("a-b.c"));
    assert!(!is_valid_dns_name(""));
    assert!(!is_valid_dns_name("."));
    assert!(!is_valid_dns_name("a.."));
    assert!(!is_valid_dns_name(".a"));
    assert!(!is_valid_dns_name("a..b"));
    assert!(!is_valid_dns_name("-a.b"));
    assert!(!is_valid_dns_name("a-.b"));
    assert!(!is_valid_dns_name("bad host!"));
    assert!(!is_valid_dns_name("h\u{e9}.com"));
    let label63 = "a".repeat(63);
    let label64 = "a".repeat(64);
    assert!(is_valid_dns_name(&label63));
    assert!(!is_valid_dns_name(&label64));
    // 4 labels of 63 bytes and 3 dots: 255 bytes, over the 253 limit.
    let long = [label63.as_str(); 4].join(".");
    assert!(!is_valid_dns_name(&long));
    // 127 labels "a" and 126 dots: 253 bytes, at the limit.
    let at_limit = ["a"; 127].join(".");
    assert_eq!(at_limit.len(), 253);
    assert!(is_valid_dns_name(&at_limit));
    assert!(is_valid_dns_name(&format!("{at_limit}.")));
}

#[test]
fn advertise_prefers_ip_then_socket_then_name() {
    let lo6 = v6([0, 0, 0, 0, 0, 0, 0, 1]);
    assert_eq!(parse_advertise_host("::1", Some(lo6), None), Ok(AdvertiseHost::Ip(lo6)));
    assert_eq!(parse_advertise_host("[::1]:53", None, Some(lo6)), Ok(AdvertiseHost::Ip(lo6)));
    assert_eq!(
        advertise_name("socks.example.com."),
        Ok(AdvertiseHost::Domain("socks.example.com.".to_string()))
    );
    assert_eq!(
        advertise_name("bad host!"),
        Err("invalid advertise address \"bad host!\": expected an IP, ip:port, or DNS name"
            .to_string())
    );
    // The caller's parse results decide first, whatever the text says.
    assert_eq!(
        parse_advertise_host("anything", Some(IpAddress::V4([1, 2, 3, 4])), None),
        Ok(AdvertiseHost::Ip(IpAddress::V4([1, 2, 3, 4])))
    );
    assert_eq!(
        parse_advertise_host("anything", None, Some(IpAddress::V4([5, 6, 7, 8]))),
        Ok(AdvertiseHost::Ip(IpAddress::V4([5, 6, 7, 8])))
    );
}

#[test]
fn egress_ipv4_in_ipv6_same_verdict() {
    let e = Egress::default();
    for [a, b, c, d] in [
        [127u8, 0, 0, 1],
        [10, 1, 2, 3],
        [8, 8, 8, 8],
        [0, 0, 0, 0],
        [0, 0, 0, 1],
        [100, 127, 0, 1],
        [100, 128, 0, 1],
    ] {
        let plain = e.is_blocked(v4(a, b, c, d));
        assert_eq!(e.is_blocked(mapped(a, b, c, d)), plain, "{a}.{b}.{c}.{d} mapped");
        assert_eq!(e.is_blocked(compatible(a, b, c, d)), plain, "{a}.{b}.{c}.{d} compatible");
    }
}

#[test]
fn egress_classes_switch_independently() {
    let only_private = Egress { block_loopback: false, block_link_local: false, block_private: true };
    assert!(only_private.is_blocked(v4(172, 31, 255, 255)));
    assert!(!only_private.is_blocked(v4(172, 32, 0, 1)));
    assert!(only_private.is_blocked(v4(100, 127, 255, 255)));
    assert!(!only_private.is_blocked(v4(100, 128, 0, 0)));
    assert!(only_private.is_blocked(v6([0xfd00, 0, 0, 0, 0, 0, 0, 1])));
    assert!(!only_private.is_blocked(v4(127, 0, 0, 1)));
    assert!(!only_private.is_blocked(v6([0xfe80, 0, 0, 0, 0, 0, 0, 1])));
    let only_link_local = Egress { block_loopback: false, block_link_local: true, block_private: false };
    assert!(only_link_local.is_blocked(v6([0xfe80, 0, 0, 0, 0, 0, 0, 1])));
    assert!(only_link_local.is_blocked(v6([0xfebf, 0, 0, 0, 0, 0, 0, 1])));
    assert!(!only_link_local.is_blocked(v6([0xfec0, 0, 0, 0, 0, 0, 0, 1])));
    assert!(only_link_local.is_blocked(mapped(169, 254, 0, 1)));
    let only_loopback = Egress { block_loopback: true, block_link_local: false, block_private: false };
    assert!(only_loopback.is_blocked(v6([0, 0, 0, 0, 0, 0, 0, 1])));
    assert!(only_loopback.is_blocked(v4(0, 1, 2, 3)));
    assert!(!only_loopback.is_blocked(v4(10, 0, 0, 1)));
    // The permissive policy still refuses every form of the unspecified address.
    let open = Egress::permissive();
    assert!(open.is_blocked(v6([0; 8])));
    assert!(open.is_blocked(mapped(0, 0, 0, 0)));
    assert!(!open.is_blocked(v6([0, 0, 0, 0, 0, 0, 0, 1])));
}

#[test]
fn overrides_are_idempotent_and_keep_other_settings() {
    let cli = Cli {
        command: None,
        config: None,
        listen: Some("[::]:1080".to_string()),
        no_tui: true,
        no_admin: true,
        admin_socket: Some("/tmp/ns5.sock".to_string()),
        mock: false,
    };
    let mut once = example_config();
    apply_overrides(&mut once, &cli);
    let mut twice = once.clone();
    apply_overrides(&mut twice, &cli);
    assert_eq!(once, twice);
    let base = example_config();
    assert_eq!(once.auth, base.auth);
    assert_eq!(once.timeouts, base.timeouts);
    assert_eq!(once.limits, base.limits);
    assert_eq!(once.udp, base.udp);
    assert_eq!(once.egress, base.egress);
    let mut untouched = example_config();
    apply_overrides(&mut untouched, &no_overrides());
    assert_eq!(untouched, base);
}
