//! The staged state: the filesystem image, the configuration record and
//! the collaborator recorders.

use valetui::configuration::{ConfigState, Configuration};
use valetui::constants::Valet;
use valetui::manager::apt::Apt;
use valetui::manager::command::ValetCommandLine;
use valetui::manager::file_system::ValetFilesystem;
use valetui::manager::service_manager::ValetServiceManager;
use valetui::manager::systemd::ValetSystemDManager;
use valetui::requirements::Requirements;
use valetui::error::ValetError;

fn test_config() -> Configuration {
    Configuration::new(
        ConfigState {
            domain: "test".to_string(),
            port: "80".to_string(),
            https_port: "443".to_string(),
            php_version: "8.2".to_string(),
            paths: Vec::new(),
        },
        Valet::new(
            "/home/u/.config/valetui".to_string(),
            "/usr/lib/valetui".to_string(),
            "u".to_string(),
            "u".to_string(),
        ),
    )
}

#[test]
fn image_put_get_unlink() {
    let mut fs = ValetFilesystem::new();
    assert!(!fs.path_exists("/tmp/x"));
    fs.put("/tmp/x", "hello");
    assert_eq!(fs.get("/tmp/x").unwrap(), "hello");
    fs.put("/tmp/x", "bye");
    assert_eq!(fs.get("/tmp/x").unwrap(), "bye");
    fs.unlink("/tmp/x");
    assert!(matches!(fs.get("/tmp/x"), Err(ValetError::IoFailure(_))));
}

#[test]
fn image_scandir_lists_children_once() {
    let mut fs = ValetFilesystem::new();
    fs.put("/d/a", "1");
    fs.put("/d/b", "2");
    fs.put("/d/sub/c", "3");
    fs.put("/d/.keep", "\n");
    fs.mkdir("/d/e", 0o755);
    let mut names = fs.scandir("/d").unwrap();
    names.sort();
    assert_eq!(names, vec!["a".to_string(), "b".to_string(), "e".to_string()]);
}

#[test]
fn image_backup_and_restore() {
    let mut fs = ValetFilesystem::new();
    fs.put("/etc/f", "before");
    fs.backup("/etc/f");
    fs.put("/etc/f", "changed");
    fs.restore("/etc/f");
    assert_eq!(fs.get("/etc/f").unwrap(), "before");
    assert!(!fs.is_file("/etc/f.bak"));
}

#[test]
fn configuration_install_lays_out_the_home() {
    let mut fs = ValetFilesystem::new();
    let config = test_config();
    config.install(&mut fs);
    for d in ["", "/drivers", "/sites", "/extensions", "/log", "/certificates"] {
        assert!(fs.is_dir(&format!("/home/u/.config/valetui{}", d)));
    }
    let doc = fs.get("/home/u/.config/valetui/config.json").unwrap();
    assert!(doc.contains("\"domain\": \"test\""));
    // a second install keeps an existing document
    fs.put("/home/u/.config/valetui/config.json", "{}");
    config.install(&mut fs);
    assert_eq!(fs.get("/home/u/.config/valetui/config.json").unwrap(), "{}");
}

#[test]
fn parse_domain_appends_the_suffix_once() {
    let config = test_config();
    assert_eq!(config.parse_domain("blog"), "blog.test");
    assert_eq!(config.parse_domain("blog.test"), "blog.test");
}

#[test]
fn watched_paths_stay_unique_and_prunable() {
    let mut config = test_config();
    config.add_path("/srv/a", false);
    config.add_path("/srv/b", true);
    config.add_path("/srv/a", false);
    assert_eq!(config.state.paths, vec!["/srv/b".to_string(), "/srv/a".to_string()]);
    config.remove_path("/srv/b");
    assert_eq!(config.state.paths, vec!["/srv/a".to_string()]);
    let mut fs = ValetFilesystem::new();
    fs.mkdir("/srv/a", 0o755);
    config.add_path("/srv/gone", false);
    config.prune(&fs);
    assert_eq!(config.state.paths, vec!["/srv/a".to_string()]);
}

#[test]
fn command_recorder_keeps_order_and_user_flag() {
    let mut cli = ValetCommandLine::new();
    cli.run("first");
    cli.run_as_user("second");
    cli.quietly("third");
    let log = cli.drain();
    assert_eq!(log.len(), 3);
    assert_eq!(log[0], (false, "first".to_string()));
    assert_eq!(log[1], (true, "second".to_string()));
    assert_eq!(log[2], (false, "third".to_string()));
    assert!(cli.commands.is_empty());
}

#[test]
fn service_manager_stages_legacy_commands() {
    let mut sm = ValetServiceManager::new(ValetCommandLine::new(), ValetFilesystem::new());
    assert!(sm.disabled("nginx"));
    sm.enable("nginx");
    assert!(!sm.disabled("nginx"));
    sm.restart(vec!["nginx"]);
    let texts: Vec<String> = sm.cli.commands.iter().map(|p| p.1.clone()).collect();
    assert!(texts.contains(&"sudo update-rc.d nginx defaults".to_string()));
    assert!(texts.contains(&"sudo service nginx restart".to_string()));
    assert!(!sm.is_systemd());
}

#[test]
fn systemd_manager_stages_systemctl_commands() {
    let mut sm = ValetSystemDManager::new(ValetCommandLine::new(), ValetFilesystem::new());
    sm.enable("nginx");
    sm.stop(vec!["nginx"]);
    let texts: Vec<String> = sm.cli.commands.iter().map(|p| p.1.clone()).collect();
    assert!(texts.contains(&"sudo systemctl enable nginx".to_string()));
    assert!(texts.contains(&"sudo systemctl stop nginx".to_string()));
    assert!(sm.is_systemd());
}

#[test]
fn service_name_resolution_reads_the_status_output() {
    let sm = ValetServiceManager::new(ValetCommandLine::new(), ValetFilesystem::new());
    assert_eq!(sm.get_real_service("nginx", "nginx is running").unwrap(), "nginx");
    assert!(matches!(
        sm.get_real_service("ghost", "Unit ghost.service not-found"),
        Err(ValetError::ProcessFailure(_))
    ));
}

#[test]
fn apt_stages_installs_only_once() {
    let mut pm = Apt::new(
        ValetCommandLine::new(),
        ValetServiceManager::new(ValetCommandLine::new(), ValetFilesystem::new()),
    );
    assert!(!pm.installed("nginx"));
    pm.ensure_installed("nginx");
    assert!(pm.installed("nginx"));
    pm.ensure_installed("nginx");
    let texts: Vec<String> = pm.cli.commands.iter().map(|p| p.1.clone()).collect();
    assert_eq!(texts, vec!["apt-get install -y nginx".to_string()]);
    assert_eq!(pm.packages("nginx"), vec!["nginx".to_string()]);
    assert_eq!(pm.get_php_fpm_name("8.2"), "php8.2-fpm");
    assert_eq!(pm.get_php_extension_prefix("8.2"), "php8.2-");
    assert_eq!(pm.package_name("redis").unwrap(), "redis-server");
    assert!(pm.package_name("postgres").is_none());
}

#[test]
fn error_classes_have_stable_names() {
    assert_eq!(ValetError::IoFailure("f".to_string()).class_name(), "io");
    assert_eq!(ValetError::ProcessFailure("c".to_string()).class_name(), "process");
    assert_eq!(ValetError::ValidationFailure("v".to_string()).class_name(), "validation");
    assert_eq!(ValetError::ParseFailure("p".to_string()).class_name(), "parse");
    let t = ValetError::TrustStoreFailure("firefox".to_string());
    assert_eq!(t.class_name(), "trust-store");
    assert_eq!(t.detail(), "firefox");
}

#[test]
fn requirements_reject_bad_hosts() {
    let req = Requirements::new(ValetCommandLine::new(), false);
    assert!(req.check("/home/u/.config/valetui", "SELinux status: disabled").is_ok());
    assert!(matches!(
        req.check("/root/.config/valetui", ""),
        Err(ValetError::ValidationFailure(_))
    ));
    assert!(matches!(
        req.check("/home/u", "SELinux status: enabled\nCurrent mode: enforcing"),
        Err(ValetError::ValidationFailure(_))
    ));
    let mut relaxed = Requirements::new(ValetCommandLine::new(), false);
    relaxed.set_ignore_selinux(true);
    assert!(relaxed.check("/home/u", "SELinux status: enabled\nCurrent mode: enforcing").is_ok());
}

#[test]
fn prune_links_removes_the_broken_entries() {
    let mut fs = ValetFilesystem::new();
    fs.symlink("/gone", "/home/u/.config/valetui/sites/dead");
    let fpm_files = ValetFilesystem::new();
    let mut site = valetui::site::Site::new(
        test_config(),
        ValetCommandLine::new(),
        fs,
        {
            let ss = valetui::site_secure::SiteSecure::new(
                ValetFilesystem::new(),
                ValetCommandLine::new(),
                test_config(),
            );
            let nginx = valetui::nginx::Nginx::new(
                Apt::new(ValetCommandLine::new(), ValetServiceManager::new(
                    ValetCommandLine::new(),
                    ValetFilesystem::new(),
                )),
                ValetSystemDManager::new(ValetCommandLine::new(), ValetFilesystem::new()),
                ValetCommandLine::new(),
                ValetFilesystem::new(),
                test_config(),
                ss,
            );
            valetui::php_fpm::PhpFpm::new(
                test_config(),
                Apt::new(ValetCommandLine::new(), ValetServiceManager::new(
                    ValetCommandLine::new(),
                    ValetFilesystem::new(),
                )),
                ValetServiceManager::new(ValetCommandLine::new(), ValetFilesystem::new()),
                ValetCommandLine::new(),
                fpm_files,
                nginx,
            )
        },
    );
    let broken = vec!["/home/u/.config/valetui/sites/dead".to_string()];
    site.prune_links(&broken);
    assert!(!site.files.is_link("/home/u/.config/valetui/sites/dead"));
    assert!(site.files.is_dir("/home/u/.config/valetui/sites"));
}
