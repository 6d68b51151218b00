//! The template engine: kind recovery, rendering, and their round trip.

use valetui::error::ValetError;
use valetui::stub::{recover_kind, render, RenderParams, SiteKind};

fn params_for(site: &str) -> RenderParams {
    RenderParams {
        site: site.to_string(),
        http_port: "80".to_string(),
        https_port: "443".to_string(),
        home_path: "/home/u/.config/valetui".to_string(),
        server_path: "/path/to/valet/server".to_string(),
        static_prefix: "/static".to_string(),
        socket_path: "/home/u/.config/valetui/valet82.sock".to_string(),
    }
}

#[test]
fn recover_isolated_marker_with_version() {
    let contents = "# x stub: secure.isolated.conf\n# ISOLATED_PHP_VERSION=7.4\nserver {}\n";
    let kind = recover_kind(contents).unwrap();
    assert!(matches!(kind, SiteKind::Isolated { ref php_version } if php_version == "7.4"));
}

#[test]
fn recover_no_marker_is_plain() {
    let contents = "server {\n    listen 80;\n}\n";
    let kind = recover_kind(contents).unwrap();
    assert!(matches!(kind, SiteKind::Plain));
}

#[test]
fn recover_unknown_kind_token_is_plain() {
    let contents = "# valet stub: odd.conf\nserver {}\n";
    let kind = recover_kind(contents).unwrap();
    assert!(matches!(kind, SiteKind::Plain));
}

#[test]
fn recover_proxy_reads_target() {
    let contents = "# valet stub: proxy.conf\nserver {\n    proxy_pass localhost:3000;\n}\n";
    let kind = recover_kind(contents).unwrap();
    assert!(matches!(kind, SiteKind::Proxy { ref target } if target == "localhost:3000"));
}

#[test]
fn recover_proxy_without_directive_is_parse_failure() {
    let contents = "# valet stub: proxy.conf\nserver {\n    listen 80;\n}\n";
    let e = recover_kind(contents).unwrap_err();
    assert!(matches!(e, ValetError::ParseFailure(_)));
    assert_eq!(e.class_name(), "parse");
}

#[test]
fn recover_isolated_without_version_line_is_empty() {
    let contents = "# valet stub: isolated.conf\nserver {}\n";
    let kind = recover_kind(contents).unwrap();
    assert!(matches!(kind, SiteKind::Isolated { ref php_version } if php_version.is_empty()));
}

#[test]
fn rendered_plain_has_no_placeholder() {
    let out = render(&SiteKind::Plain, false, &params_for("a.test"));
    assert!(!out.contains("VALET_"));
    assert!(out.contains("server_name a.test;"));
    assert!(out.contains("listen 80;"));
    assert!(out.contains("unix:/home/u/.config/valetui/valet82.sock"));
}

#[test]
fn rendered_secure_has_no_placeholder_for_every_kind() {
    let kinds = [
        SiteKind::Plain,
        SiteKind::Proxy { target: "localhost:3000".to_string() },
        SiteKind::Isolated { php_version: "7.4".to_string() },
    ];
    for kind in kinds.iter() {
        for secure in [false, true] {
            let out = render(kind, secure, &params_for("a.test"));
            assert!(!out.contains("VALET_"), "placeholder left in {}", out);
        }
    }
}

#[test]
fn rendered_secure_references_certificate() {
    let out = render(&SiteKind::Plain, true, &params_for("a.test"));
    assert!(out.contains("ssl_certificate /home/u/.config/valetui/certificates/a.test.crt;"));
    assert!(out.contains("ssl_certificate_key /home/u/.config/valetui/certificates/a.test.key;"));
    assert!(out.contains("listen 443 ssl;"));
}

#[test]
fn round_trip_plain() {
    for secure in [false, true] {
        let out = render(&SiteKind::Plain, secure, &params_for("a.test"));
        let back = recover_kind(out.as_str()).unwrap();
        assert!(matches!(back, SiteKind::Plain));
    }
}

#[test]
fn round_trip_proxy() {
    for secure in [false, true] {
        let kind = SiteKind::Proxy { target: "localhost:3000".to_string() };
        let out = render(&kind, secure, &params_for("b.test"));
        let back = recover_kind(out.as_str()).unwrap();
        assert!(matches!(back, SiteKind::Proxy { ref target } if target == "localhost:3000"));
    }
}

#[test]
fn round_trip_isolated() {
    for secure in [false, true] {
        let kind = SiteKind::Isolated { php_version: "7.4".to_string() };
        let out = render(&kind, secure, &params_for("c.test"));
        let back = recover_kind(out.as_str()).unwrap();
        assert!(matches!(back, SiteKind::Isolated { ref php_version } if php_version == "7.4"));
    }
}
