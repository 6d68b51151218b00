//! The apt package manager: stages install commands and tracks which
//! packages are installed.

use vstd::prelude::*;

use crate::manager::command::ValetCommandLine;
use crate::manager::service_manager::ValetServiceManager;
use crate::strutil::{concat_str, str_eq};

verus! {

/// Package installation through `apt-get`.
pub struct Apt {
    pub cli: ValetCommandLine,
    pub service_manager: ValetServiceManager,
    pub installed_packages: Vec<String>,
}

impl Apt {
    /// A package is marked installed.
    pub open spec fn is_installed(self, p: Seq<char>) -> bool {
        exists|i: int|
            0 <= i < self.installed_packages@.len() && (#[trigger] self.installed_packages@[i])@
                == p
    }

    pub fn new(cli: ValetCommandLine, service_manager: ValetServiceManager) -> (r: Self)
        ensures
            r.cli == cli,
            r.service_manager == service_manager,
            forall|p: Seq<char>| !r.is_installed(p),
    {
        Apt { cli, service_manager, installed_packages: Vec::new() }
    }

    /// Marks a package as installed, as probed by the embedding
    /// application.
    pub fn mark_installed(&mut self, package: &str)
        ensures
            forall|p: Seq<char>|
                final(self).is_installed(p) == (old(self).is_installed(p) || p == package@),
            final(self).cli == old(self).cli,
            final(self).service_manager == old(self).service_manager,
    {
        let n = self.installed_packages.len();
        self.installed_packages.push(package.to_owned());
        proof {
            assert(final(self).installed_packages@[n as int]@ == package@);
            assert forall|p: Seq<char>|
                final(self).is_installed(p) == (old(self).is_installed(p) || p == package@) by {
                if final(self).is_installed(p) {
                    let k = choose|k: int|
                        0 <= k < final(self).installed_packages@.len() && (#[trigger] final(self).installed_packages@[k])@ == p;
                    if k < n {
                        assert(old(self).installed_packages@[k]@ == p);
                    }
                }
                if old(self).is_installed(p) {
                    let k = choose|k: int|
                        0 <= k < old(self).installed_packages@.len() && (#[trigger] old(self).installed_packages@[k])@ == p;
                    assert(final(self).installed_packages@[k]@ == p);
                }
            }
        }
    }

    /// The installed packages matching `package` by name.
    pub fn packages(&self, package: &str) -> (r: Vec<String>)
        ensures
            r@.len() > 0 <==> self.is_installed(package@),
            forall|i: int| 0 <= i < r@.len() ==> (#[trigger] r@[i])@ == package@,
    {
        let mut out: Vec<String> = Vec::new();
        let n = self.installed_packages.len();
        let mut i: usize = 0;
        while i < n
            invariant
                n == self.installed_packages@.len(),
                i <= n,
                forall|k: int| 0 <= k < out@.len() ==> (#[trigger] out@[k])@ == package@,
                out@.len() > 0 <==> exists|j: int|
                    0 <= j < i && (#[trigger] self.installed_packages@[j])@ == package@,
            decreases n - i,
        {
            if str_eq(self.installed_packages[i].as_str(), package) {
                out.push(package.to_owned());
            }
            i += 1;
        }
        out
    }

    pub fn installed(&self, package: &str) -> (r: bool)
        ensures
            r == self.is_installed(package@),
    {
        let matches_found = self.packages(package);
        matches_found.len() > 0
    }

    /// Stages the install command for a package unless it is installed.
    pub fn ensure_installed(&mut self, package: &str)
        ensures
            forall|p: Seq<char>|
                final(self).is_installed(p) == (old(self).is_installed(p) || p == package@),
            final(self).service_manager == old(self).service_manager,
            old(self).is_installed(package@) ==> *final(self) == *old(self),
            !old(self).is_installed(package@) ==> final(self).cli.log() == old(self).cli.log().push(
                (false, "apt-get install -y "@ + package@),
            ),
    {
        if !self.installed(package) {
            self.install_or_fail(package);
        } else {
            proof {
                assert forall|p: Seq<char>|
                    final(self).is_installed(p) == (old(self).is_installed(p) || p
                        == package@) by {}
            }
        }
    }

    /// Stages the install command for a package; a failure of the real
    /// installation is reported by the executing application.
    pub fn install_or_fail(&mut self, package: &str)
        ensures
            forall|p: Seq<char>|
                final(self).is_installed(p) == (old(self).is_installed(p) || p == package@),
            final(self).cli.log() == old(self).cli.log().push(
                (false, "apt-get install -y "@ + package@),
            ),
            final(self).service_manager == old(self).service_manager,
    {
        proof {
            reveal_strlit("apt-get install -y ");
        }
        let c = concat_str("apt-get install -y ", package);
        self.cli.run(c.as_str());
        let ghost m = *self;
        self.mark_installed(package);
        proof {
            assert(m.installed_packages@ == old(self).installed_packages@);
            assert forall|p: Seq<char>|
                final(self).is_installed(p) == (old(self).is_installed(p) || p == package@) by {
                if m.is_installed(p) {
                    let k = choose|k: int|
                        0 <= k < m.installed_packages@.len() && (
                        #[trigger] m.installed_packages@[k])@ == p;
                    assert(old(self).installed_packages@[k]@ == p);
                }
                if old(self).is_installed(p) {
                    let k = choose|k: int|
                        0 <= k < old(self).installed_packages@.len() && (#[trigger] old(self).installed_packages@[k])@ == p;
                    assert(m.installed_packages@[k]@ == p);
                }
            }
        }
    }

    /// The package holding the PHP-FPM runtime of a version.
    pub fn get_php_fpm_name(&self, version: &str) -> (r: String)
        ensures
            r@ == "php"@ + version@ + "-fpm"@,
    {
        let c = concat_str("php", version);
        concat_str(c.as_str(), "-fpm")
    }

    /// The package-name prefix of a version's PHP extensions.
    pub fn get_php_extension_prefix(&self, version: &str) -> (r: String)
        ensures
            r@ == "php"@ + version@ + "-"@,
    {
        let c = concat_str("php", version);
        concat_str(c.as_str(), "-")
    }

    /// The apt package behind a service name, for the known services.
    pub fn package_name(&self, name: &str) -> (r: Option<String>)
        ensures
            name@ == "redis"@ ==> r is Some && r.unwrap()@ == "redis-server"@,
            name@ == "mysql"@ ==> r is Some && r.unwrap()@ == "mysql-server"@,
            name@ == "mariadb"@ ==> r is Some && r.unwrap()@ == "mariadb-server"@,
            name@ != "redis"@ && name@ != "mysql"@ && name@ != "mariadb"@ ==> r is None,
    {
        proof {
            reveal_strlit("redis");
            reveal_strlit("mysql");
            reveal_strlit("mariadb");
            assert("redis"@[0] != "mysql"@[0]);
            assert("redis"@.len() != "mariadb"@.len());
            assert("mysql"@.len() != "mariadb"@.len());
        }
        if str_eq(name, "redis") {
            Some("redis-server".to_owned())
        } else if str_eq(name, "mysql") {
            Some("mysql-server".to_owned())
        } else if str_eq(name, "mariadb") {
            Some("mariadb-server".to_owned())
        } else {
            None
        }
    }

    /// Stages a restart of the network manager service.
    pub fn restart_network_manager(&mut self)
        ensures
            final(self).cli == old(self).cli,
            final(self).installed_packages@ == old(self).installed_packages@,
    {
        self.service_manager.restart(vec!["NetworkManager"]);
    }
}

} // verus!
