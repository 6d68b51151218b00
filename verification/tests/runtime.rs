//! The PHP runtime manager: normalization, socket names and the
//! bookkeeping of the versions in use.

use valetui::configuration::{ConfigState, Configuration};
use valetui::constants::Valet;
use valetui::error::ValetError;
use valetui::manager::apt::Apt;
use valetui::manager::command::ValetCommandLine;
use valetui::manager::file_system::ValetFilesystem;
use valetui::manager::service_manager::ValetServiceManager;
use valetui::manager::systemd::ValetSystemDManager;
use valetui::nginx::Nginx;
use valetui::php_fpm::{normalize_version, rewrite_socket_reference, socket_name, PhpFpm};
use valetui::site_secure::SiteSecure;

fn test_valet() -> Valet {
    Valet::new(
        "/home/u/.config/valetui".to_string(),
        "/usr/lib/valetui".to_string(),
        "u".to_string(),
        "u".to_string(),
    )
}

fn test_config() -> Configuration {
    Configuration::new(
        ConfigState {
            domain: "test".to_string(),
            port: "80".to_string(),
            https_port: "443".to_string(),
            php_version: "8.2".to_string(),
            paths: Vec::new(),
        },
        test_valet(),
    )
}

fn test_fpm(files: ValetFilesystem) -> PhpFpm {
    let cli = ValetCommandLine::new();
    let sm = ValetServiceManager::new(ValetCommandLine::new(), ValetFilesystem::new());
    let sysd = ValetSystemDManager::new(ValetCommandLine::new(), ValetFilesystem::new());
    let pm = Apt::new(ValetCommandLine::new(), ValetServiceManager::new(
        ValetCommandLine::new(),
        ValetFilesystem::new(),
    ));
    let ss = SiteSecure::new(ValetFilesystem::new(), ValetCommandLine::new(), test_config());
    let nginx = Nginx::new(
        Apt::new(ValetCommandLine::new(), ValetServiceManager::new(
            ValetCommandLine::new(),
            ValetFilesystem::new(),
        )),
        sysd,
        ValetCommandLine::new(),
        ValetFilesystem::new(),
        test_config(),
        ss,
    );
    PhpFpm::new(test_config(), pm, sm, cli, files, nginx)
}

#[test]
fn normalize_supported_forms() {
    assert_eq!(normalize_version("php8.2"), "8.2");
    assert_eq!(normalize_version("8.2"), "8.2");
    assert_eq!(normalize_version("php-8.2"), "8.2");
    assert_eq!(normalize_version("php@7.4"), "7.4");
    assert_eq!(normalize_version("82"), "8.2");
}

#[test]
fn normalize_rejects_unknown_and_malformed() {
    assert_eq!(normalize_version("9.9"), "");
    assert_eq!(normalize_version("8"), "");
    assert_eq!(normalize_version("php"), "");
    assert_eq!(normalize_version("8.2.1"), "");
    assert_eq!(normalize_version(""), "");
}

#[test]
fn socket_names_are_deterministic() {
    assert_eq!(socket_name("8.2"), "valet82.sock");
    assert_eq!(socket_name("7.4"), "valet74.sock");
}

#[test]
fn socket_file_name_uses_active_version_by_default() {
    let fpm = test_fpm(ValetFilesystem::new());
    assert_eq!(fpm.socket_file_name(None), "valet82.sock");
    assert_eq!(fpm.socket_file_name(Some("7.4")), "valet74.sock");
    assert_eq!(fpm.fpm_socket_file("7.4"), "/home/u/.config/valetui/valet74.sock");
}

#[test]
fn validate_version_accepts_serving_set_only() {
    let fpm = test_fpm(ValetFilesystem::new());
    assert!(fpm.validate_version("8.2"));
    assert!(fpm.validate_version("8.3"));
    assert!(!fpm.validate_version("7.4"));
    assert!(matches!(
        fpm.validate_isolation_version("9.9"),
        Err(ValetError::ValidationFailure(_))
    ));
    assert!(fpm.validate_isolation_version("7.0").is_ok());
}

#[test]
fn utilized_versions_always_contains_active_version() {
    let fpm = test_fpm(ValetFilesystem::new());
    let used = fpm.utilized_php_versions();
    assert_eq!(used, vec!["8.2".to_string()]);
}

#[test]
fn utilized_versions_reads_site_socket_references() {
    let mut files = ValetFilesystem::new();
    files.put(
        "/home/u/.config/valetui/nginx/a.test",
        "server {\n    fastcgi_pass unix:/home/u/.config/valetui/valet74.sock;\n}\n",
    );
    files.put(
        "/home/u/.config/valetui/nginx/b.test",
        "# ISOLATED_PHP_VERSION=7.0\nserver {\n    fastcgi_pass unix:/home/u/.config/valetui/valet70.sock;\n}\n",
    );
    let fpm = test_fpm(files);
    let used = fpm.utilized_php_versions();
    assert!(used.contains(&"7.4".to_string()));
    assert!(used.contains(&"8.2".to_string()));
    // the isolated site is pinned and excluded from the scan
    assert!(!used.contains(&"7.0".to_string()));
}

#[test]
fn fpm_config_path_prefers_known_layouts() {
    let mut files = ValetFilesystem::new();
    files.mkdir("/etc/php/8.2/fpm/pool.d", 0o755);
    let fpm = test_fpm(files);
    assert_eq!(fpm.fpm_config_path(Some("8.2")).unwrap(), "/etc/php/8.2/fpm/pool.d");
    let empty = test_fpm(ValetFilesystem::new());
    assert!(matches!(
        empty.fpm_config_path(Some("8.2")),
        Err(ValetError::ValidationFailure(_))
    ));
}

#[test]
fn install_configuration_writes_pool_file() {
    let mut files = ValetFilesystem::new();
    files.mkdir("/etc/php/8.2/fpm/pool.d", 0o755);
    let mut fpm = test_fpm(files);
    fpm.install_configuration("8.2").unwrap();
    let written = fpm.files.get("/etc/php/8.2/fpm/pool.d/valet.conf").unwrap();
    assert_eq!(
        written,
        "[valet]\nuser = u\ngroup = u\nlisten = /home/u/.config/valetui/valet82.sock\nlisten.mode = 0660\n"
    );
}

#[test]
fn switch_version_records_active_version() {
    let mut files = ValetFilesystem::new();
    files.mkdir("/etc/php/8.3/fpm/pool.d", 0o755);
    let mut fpm = test_fpm(files);
    fpm.switch_version("php8.3", false, true).unwrap();
    assert_eq!(fpm.get_current_version(), "8.3");
    assert!(matches!(
        fpm.switch_version("9.9", false, true),
        Err(ValetError::ValidationFailure(_))
    ));
    assert_eq!(fpm.get_current_version(), "8.3");
}

#[test]
fn rewrite_socket_reference_replaces_the_socket() {
    let content = "server {\n    fastcgi_pass unix:/old/valet74.sock;\n}\n";
    let out = rewrite_socket_reference(content, "/new/valet83.sock").unwrap();
    assert_eq!(out, "server {\n    fastcgi_pass unix:/new/valet83.sock;\n}\n");
    assert!(rewrite_socket_reference("server {}\n", "/new/valet83.sock").is_none());
}

#[test]
fn get_php_executable_path_names_the_binary() {
    let fpm = test_fpm(ValetFilesystem::new());
    assert_eq!(fpm.get_php_executable_path(None), "php");
    assert_eq!(fpm.get_php_executable_path(Some("php8.2")), "php8.2");
}

#[test]
fn php_rc_version_trims_the_pin_file() {
    let fpm = test_fpm(ValetFilesystem::new());
    let site = valetui::site::Site::new(
        test_config(),
        ValetCommandLine::new(),
        ValetFilesystem::new(),
        fpm,
    );
    assert_eq!(site.php_rc_version("blog", Some("7.4\n")).unwrap(), "7.4");
    assert_eq!(site.php_rc_version("blog", Some("  php8.2  ")).unwrap(), "8.2");
    assert!(site.php_rc_version("blog", None).is_none());
}

#[test]
fn get_site_url_checks_the_served_sites() {
    let mut files = ValetFilesystem::new();
    files.mkdir("/srv/park", 0o755);
    files.mkdir("/srv/park/blog", 0o755);
    let mut config = test_config();
    config.add_path("/srv/park", false);
    let site = valetui::site::Site::new(
        config,
        ValetCommandLine::new(),
        files,
        test_fpm(ValetFilesystem::new()),
    );
    assert_eq!(site.get_site_url("blog").unwrap(), "blog.test");
    assert_eq!(site.get_site_url("blog.test").unwrap(), "blog.test");
    assert!(matches!(
        site.get_site_url("ghost"),
        Err(ValetError::ValidationFailure(_))
    ));
}

#[test]
fn uninstall_removes_the_pool_and_stops_the_service() {
    let mut files = ValetFilesystem::new();
    files.mkdir("/etc/php/8.2/fpm/pool.d", 0o755);
    files.put("/etc/php/8.2/fpm/pool.d/valet.conf", "[valet]\n");
    let mut fpm = test_fpm(files);
    fpm.uninstall(Some("8.2")).unwrap();
    assert!(!fpm.files.is_file("/etc/php/8.2/fpm/pool.d/valet.conf"));
    let texts: Vec<String> = fpm.sm.cli.commands.iter().map(|p| p.1.clone()).collect();
    assert_eq!(texts, vec!["sudo service php8.2-fpm stop".to_string()]);
}

#[test]
fn switch_version_updates_the_alias_when_asked() {
    let mut files = ValetFilesystem::new();
    files.mkdir("/etc/php/8.3/fpm/pool.d", 0o755);
    let mut fpm = test_fpm(files);
    fpm.switch_version("8.3", true, true).unwrap();
    let texts: Vec<String> = fpm.cli.commands.iter().map(|p| p.1.clone()).collect();
    assert_eq!(texts, vec!["update-alternatives --set php /usr/bin/php8.3".to_string()]);
    // the default server block is rewired in the web server's image
    let block = fpm
        .nginx
        .files
        .get("/etc/nginx/sites-available/valet.conf")
        .unwrap();
    assert!(block.contains("unix:/home/u/.config/valetui/valet83.sock"));
}

#[test]
fn update_home_path_rewrites_each_pool_file_once() {
    let mut files = ValetFilesystem::new();
    files.mkdir("/etc/php/7.4/fpm/pool.d", 0o755);
    files.put(
        "/etc/php/7.4/fpm/pool.d/valet.conf",
        "[valet]\nlisten = /old/home/valet74.sock\n",
    );
    // a shared layout: every other version falls back to one directory
    files.mkdir("/etc/php-fpm.d", 0o755);
    files.put("/etc/php-fpm.d/valet.conf", "listen = /old/home/valet82.sock\n");
    let mut fpm = test_fpm(files);
    fpm.update_home_path("/old/home", "/new/home");
    assert_eq!(
        fpm.files.get("/etc/php/7.4/fpm/pool.d/valet.conf").unwrap(),
        "[valet]\nlisten = /new/home/valet74.sock\n"
    );
    // the shared file is rewritten once, not once per version
    assert_eq!(
        fpm.files.get("/etc/php-fpm.d/valet.conf").unwrap(),
        "listen = /new/home/valet82.sock\n"
    );
}

#[test]
fn install_stages_the_extensions_only_when_asked() {
    let files = {
        let mut f = ValetFilesystem::new();
        f.mkdir("/etc/php/8.1/fpm/pool.d", 0o755);
        f
    };
    let mut fpm = test_fpm(files);
    fpm.install(Some("8.1"), true).unwrap();
    let texts: Vec<String> = fpm.pm.cli.commands.iter().map(|p| p.1.clone()).collect();
    assert_eq!(texts.len(), 2);
    assert_eq!(texts[0], "apt-get install -y php8.1-fpm");
    assert_eq!(
        texts[1],
        "apt-get install -y php8.1-cli php8.1-mysql php8.1-gd php8.1-zip php8.1-xml \
         php8.1-curl php8.1-mbstring php8.1-pgsql php8.1-intl php8.1-posix"
    );
    // a second install finds the runtime present and stages nothing more
    fpm.install(Some("8.1"), true).unwrap();
    assert_eq!(fpm.pm.cli.commands.len(), 2);
}

#[test]
fn switch_version_stops_the_previous_version_only_when_unused() {
    let mut files = ValetFilesystem::new();
    files.mkdir("/etc/php/8.3/fpm/pool.d", 0o755);
    let mut fpm = test_fpm(files);
    fpm.switch_version("8.3", false, true).unwrap();
    let texts: Vec<String> = fpm.sm.cli.commands.iter().map(|p| p.1.clone()).collect();
    assert_eq!(texts[texts.len() - 2], "sudo service php8.2-fpm stop");

    let mut files2 = ValetFilesystem::new();
    files2.mkdir("/etc/php/8.3/fpm/pool.d", 0o755);
    files2.put(
        "/home/u/.config/valetui/nginx/a.test",
        "server { fastcgi_pass unix:/home/u/.config/valetui/valet82.sock; }",
    );
    let mut fpm2 = test_fpm(files2);
    fpm2.switch_version("8.3", false, true).unwrap();
    let texts2: Vec<String> = fpm2.sm.cli.commands.iter().map(|p| p.1.clone()).collect();
    assert!(!texts2.contains(&"sudo service php8.2-fpm stop".to_string()));
}
