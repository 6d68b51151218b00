//! Site trust: the authority lifecycle, per-site issuance and the domain
//! rename.

use valetui::configuration::{ConfigState, Configuration};
use valetui::constants::Valet;
use valetui::manager::command::ValetCommandLine;
use valetui::manager::file_system::ValetFilesystem;
use valetui::site_secure::SiteSecure;
use valetui::stub::{recover_kind, render, RenderParams, SiteKind};

const HOME: &str = "/home/u/.config/valetui";

fn test_config() -> Configuration {
    Configuration::new(
        ConfigState {
            domain: "test".to_string(),
            port: "80".to_string(),
            https_port: "443".to_string(),
            php_version: "8.2".to_string(),
            paths: Vec::new(),
        },
        Valet::new(
            HOME.to_string(),
            "/usr/lib/valetui".to_string(),
            "u".to_string(),
            "u".to_string(),
        ),
    )
}

fn test_site_secure() -> SiteSecure {
    SiteSecure::new(ValetFilesystem::new(), ValetCommandLine::new(), test_config())
}

fn params_for(site: &str) -> RenderParams {
    RenderParams {
        site: site.to_string(),
        http_port: "80".to_string(),
        https_port: "443".to_string(),
        home_path: HOME.to_string(),
        server_path: "/path/to/valet/server".to_string(),
        static_prefix: "/static".to_string(),
        socket_path: format!("{}/valet82.sock", HOME),
    }
}

#[test]
fn ensure_is_idempotent() {
    let mut ss = test_site_secure();
    ss.create_ca(7300);
    let files_after_first = ss.files.files.clone();
    let dirs_after_first = ss.files.dirs.clone();
    ss.create_ca(7300);
    assert_eq!(ss.files.files, files_after_first);
    assert_eq!(ss.files.dirs, dirs_after_first);
}

#[test]
fn expiry_days_pass_through() {
    let ss = test_site_secure();
    assert_eq!(ss.calculate_expiry_days(7300), 7300);
    assert_eq!(ss.calculate_expiry_days(365), 365);
}

#[test]
fn secure_creates_certificate_and_secure_file() {
    let mut ss = test_site_secure();
    ss.secure("a.test", None).unwrap();
    assert!(ss.files.is_file(&format!("{}/certificates/a.test.crt", HOME)));
    let conf = ss.files.get(&format!("{}/nginx/a.test", HOME)).unwrap();
    let kind = recover_kind(conf.as_str()).unwrap();
    assert!(matches!(kind, SiteKind::Plain));
    assert!(conf.contains("ssl_certificate"));
    assert_eq!(ss.secured(), vec!["a.test".to_string()]);
}

#[test]
fn unsecure_removes_certificate_files() {
    let mut ss = test_site_secure();
    ss.secure("a.test", None).unwrap();
    ss.unsecure("a.test", false).unwrap();
    for ext in ["crt", "key", "csr", "conf"] {
        assert!(!ss.files.is_file(&format!("{}/certificates/a.test.{}", HOME, ext)));
    }
    assert!(!ss.files.is_file(&format!("{}/nginx/a.test", HOME)));
    assert!(ss.secured().is_empty());
}

#[test]
fn unsecure_missing_certificate_is_a_no_op() {
    let mut ss = test_site_secure();
    let before = ss.files.files.clone();
    ss.unsecure("ghost.test", true).unwrap();
    assert_eq!(ss.files.files, before);
}

#[test]
fn secure_then_unsecure_preserves_the_kind() {
    let mut ss = test_site_secure();
    let seed = render(
        &SiteKind::Proxy { target: "localhost:3000".to_string() },
        false,
        &params_for("b.test"),
    );
    ss.secure("b.test", Some(seed.as_str())).unwrap();
    let secure_conf = ss.files.get(&format!("{}/nginx/b.test", HOME)).unwrap();
    let kind = recover_kind(secure_conf.as_str()).unwrap();
    assert!(matches!(kind, SiteKind::Proxy { ref target } if target == "localhost:3000"));
    ss.unsecure("b.test", true).unwrap();
    let plain_conf = ss.files.get(&format!("{}/nginx/b.test", HOME)).unwrap();
    let back = recover_kind(plain_conf.as_str()).unwrap();
    assert!(matches!(back, SiteKind::Proxy { ref target } if target == "localhost:3000"));
    assert!(!plain_conf.contains("ssl_certificate"));
}

#[test]
fn isolated_round_trip_through_secure_and_unsecure() {
    let mut ss = test_site_secure();
    let seed = render(
        &SiteKind::Isolated { php_version: "7.4".to_string() },
        false,
        &params_for("c.test"),
    );
    ss.secure("c.test", Some(seed.as_str())).unwrap();
    ss.unsecure("c.test", true).unwrap();
    ss.secure("c.test", None).unwrap();
    let conf = ss.files.get(&format!("{}/nginx/c.test", HOME)).unwrap();
    let kind = recover_kind(conf.as_str()).unwrap();
    assert!(matches!(kind, SiteKind::Isolated { ref php_version } if php_version == "7.4"));
}

#[test]
fn re_secure_for_new_domain_moves_every_site() {
    let mut ss = test_site_secure();
    ss.secure("a.test", None).unwrap();
    let seed = render(
        &SiteKind::Proxy { target: "localhost:3000".to_string() },
        false,
        &params_for("b.test"),
    );
    ss.secure("b.test", Some(seed.as_str())).unwrap();

    let failures = ss.re_secure_for_new_domain("test", "dev");
    assert!(failures.is_empty());

    let mut now_secured = ss.secured();
    now_secured.sort();
    assert_eq!(now_secured, vec!["a.dev".to_string(), "b.dev".to_string()]);
    assert!(!ss.files.is_file(&format!("{}/certificates/a.test.crt", HOME)));
    assert!(!ss.files.is_file(&format!("{}/certificates/b.test.crt", HOME)));
    let b_conf = ss.files.get(&format!("{}/nginx/b.dev", HOME)).unwrap();
    let kind = recover_kind(b_conf.as_str()).unwrap();
    assert!(matches!(kind, SiteKind::Proxy { ref target } if target == "localhost:3000"));
    assert!(b_conf.contains("server_name b.dev;"));
}

#[test]
fn https_suffix_is_empty_only_for_the_default_port() {
    let ss = test_site_secure();
    assert_eq!(ss.https_suffix(), "");
    let mut other = test_config();
    other.state.https_port = "8443".to_string();
    let ss2 = SiteSecure::new(ValetFilesystem::new(), ValetCommandLine::new(), other);
    assert_eq!(ss2.https_suffix(), ":8443");
}

#[test]
fn secure_records_the_signing_commands() {
    let mut ss = test_site_secure();
    ss.secure("a.test", None).unwrap();
    let texts: Vec<String> = ss.cli.commands.iter().map(|p| p.1.clone()).collect();
    assert!(texts.iter().any(|t| t.contains("openssl req -new -newkey rsa:2048 -days 7300")));
    assert!(texts.iter().any(|t| t.contains("openssl x509 -req") && t.contains("-days 365")));
    let ext = ss.files.get(&format!("{}/certificates/a.test.conf", HOME)).unwrap();
    assert!(ext.contains("subjectAltName=DNS:a.test"));
    assert!(ext.contains("CN=a.test"));
}

#[test]
fn rename_reports_failures_per_hostname() {
    let mut ss = test_site_secure();
    ss.secure("a.test", None).unwrap();
    // break the site file so its kind cannot be recovered
    ss.files.put(
        &format!("{}/nginx/a.test", HOME),
        "# valet stub: proxy.conf\nserver {}\n",
    );
    let failures = ss.re_secure_for_new_domain("test", "dev");
    assert_eq!(failures.len(), 1);
    assert_eq!(failures[0].0, "a.dev");
    assert_eq!(failures[0].1.class_name(), "parse");
    // the old certificate is still gone
    assert!(!ss.files.is_file(&format!("{}/certificates/a.test.crt", HOME)));
}

#[test]
fn secure_carries_an_upper_case_proxy_target_through() {
    let mut ss = test_site_secure();
    let seed =
        "# valet stub: proxy.conf\nserver {\n    proxy_pass http://LOCALHOST:3000;\n}\n";
    ss.secure("b.test", Some(seed)).unwrap();
    let conf = ss.files.get(&format!("{}/nginx/b.test", HOME)).unwrap();
    let kind = recover_kind(conf.as_str()).unwrap();
    assert!(matches!(kind, SiteKind::Proxy { ref target } if target == "http://LOCALHOST:3000"));
}

#[test]
fn secure_rejects_an_unusable_hostname() {
    let mut ss = test_site_secure();
    let before = ss.files.files.clone();
    let e = ss.secure("UPPER.test", None).unwrap_err();
    assert_eq!(e.class_name(), "validation");
    assert_eq!(ss.files.files, before);
    let e2 = ss.unsecure("", true).unwrap_err();
    assert_eq!(e2.class_name(), "validation");
}

#[test]
fn rename_without_a_certificate_directory_is_a_no_op() {
    let mut ss = test_site_secure();
    let before = ss.files.files.clone();
    let failures = ss.re_secure_for_new_domain("test", "dev");
    assert!(failures.is_empty());
    assert_eq!(ss.files.files, before);
    assert!(ss.cli.commands.is_empty());
}
