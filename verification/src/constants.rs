//! Fixed values of the environment: install paths, the served and
//! isolation-capable PHP versions, and the identity the installation runs
//! under.

use vstd::prelude::*;

verus! {

/// The identity and root locations of one installation, probed once at
/// startup by the embedding application.
pub struct Valet {
    pub home_path: String,
    pub root_path: String,
    pub user: String,
    pub group: String,
}

impl Valet {
    pub fn new(home_path: String, root_path: String, user: String, group: String) -> (r: Valet)
        ensures
            r.home_path == home_path,
            r.root_path == root_path,
            r.user == user,
            r.group == group,
    {
        Valet { home_path, root_path, user, group }
    }
}

/// Path of the PHP entry script every plain site is served through.
pub fn server_path() -> (r: &'static str)
    ensures
        r@ == "/path/to/valet/server"@,
{
    "/path/to/valet/server"
}

/// URL prefix under which static assets are served directly.
pub fn static_prefix() -> (r: &'static str)
    ensures
        r@ == "/static"@,
{
    "/static"
}

/// File name of a version's PHP-FPM pool configuration.
pub fn fpm_config_file_name() -> (r: &'static str)
    ensures
        r@ == "valet.conf"@,
{
    "valet.conf"
}

/// The main nginx configuration file.
pub fn nginx_conf_path() -> (r: &'static str)
    ensures
        r@ == "/etc/nginx/nginx.conf"@,
{
    "/etc/nginx/nginx.conf"
}

/// The available server block of this installation.
pub fn sites_available_conf() -> (r: &'static str)
    ensures
        r@ == "/etc/nginx/sites-available/valet.conf"@,
{
    "/etc/nginx/sites-available/valet.conf"
}

/// The enabled server block of this installation.
pub fn sites_enabled_conf() -> (r: &'static str)
    ensures
        r@ == "/etc/nginx/sites-enabled/valet.conf"@,
{
    "/etc/nginx/sites-enabled/valet.conf"
}

/// The common PHP extensions installed beside a runtime.
pub fn common_extensions() -> (r: Vec<&'static str>)
    ensures
        r@.len() == 10,
        r@[0]@ == "cli"@,
        r@[1]@ == "mysql"@,
        r@[2]@ == "gd"@,
        r@[3]@ == "zip"@,
        r@[4]@ == "xml"@,
        r@[5]@ == "curl"@,
        r@[6]@ == "mbstring"@,
        r@[7]@ == "pgsql"@,
        r@[8]@ == "intl"@,
        r@[9]@ == "posix"@,
{
    vec!["cli", "mysql", "gd", "zip", "xml", "curl", "mbstring", "pgsql", "intl", "posix"]
}

/// The versions that may serve as the system default.
pub fn supported_php_versions() -> (r: Vec<&'static str>)
    ensures
        r@.len() == 2,
        r@[0]@ == "8.2"@,
        r@[1]@ == "8.3"@,
{
    vec!["8.2", "8.3"]
}

/// The versions a site may be isolated to.
pub fn isolation_supported_php_versions() -> (r: Vec<&'static str>)
    ensures
        r@.len() == 9,
        r@[0]@ == "7.0"@,
        r@[1]@ == "7.1"@,
        r@[2]@ == "7.2"@,
        r@[3]@ == "7.3"@,
        r@[4]@ == "7.4"@,
        r@[5]@ == "8.0"@,
        r@[6]@ == "8.1"@,
        r@[7]@ == "8.2"@,
        r@[8]@ == "8.3"@,
{
    vec!["7.0", "7.1", "7.2", "7.3", "7.4", "8.0", "8.1", "8.2", "8.3"]
}

} // verus!
