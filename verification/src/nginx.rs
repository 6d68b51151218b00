//! The web-server component: installs the server, keeps the main
//! configuration and the default server block current, and lists the
//! generated per-site files.

use vstd::prelude::*;
use vstd::string::StrSliceExecFns;

use crate::configuration::Configuration;
use crate::manager::apt::Apt;
use crate::manager::command::ValetCommandLine;
use crate::manager::file_system::ValetFilesystem;
use crate::manager::systemd::{systemctl_cmd, ValetSystemDManager};
use crate::site_secure::SiteSecure;
use crate::strutil::{concat_str, contains_seq, contains_str, starts_with, occurs_at};

verus! {

/// The web server and its generated configuration.
pub struct Nginx {
    pub pm: Apt,
    pub sm: ValetSystemDManager,
    pub cli: ValetCommandLine,
    pub files: ValetFilesystem,
    pub configuration: Configuration,
    pub site_secure: SiteSecure,
}

impl Nginx {
    pub open spec fn wf(self) -> bool {
        &&& self.files.wf()
        &&& self.configuration.wf()
        &&& self.site_secure.wf()
    }

    pub open spec fn home(self) -> Seq<char> {
        self.configuration.valet.home_path@
    }

    /// The main configuration written for this installation.
    pub open spec fn spec_nginx_conf(self, pid_commented: bool) -> Seq<char> {
        "user "@ + self.configuration.valet.user@ + " "@ + self.configuration.valet.group@
            + ";\nworker_processes auto;\n"@ + (if pid_commented {
            "# pid /run/nginx.pid;\n"@
        } else {
            "pid /run/nginx.pid;\n"@
        }) + "events {\n    worker_connections 1024;\n}\nhttp {\n    include /etc/nginx/sites-enabled/*;\n    error_log "@
            + self.home() + "/log/nginx-error.log;\n}\n"@
    }

    /// The default server block, addressing the given socket file under
    /// the home directory.
    pub open spec fn spec_server_block(self, socket_file_name: Seq<char>) -> Seq<char> {
        "server {\n    listen "@ + self.configuration.state.port@
            + " default_server;\n    root /var/www/html;\n    fastcgi_pass unix:"@ + self.home()
            + "/"@ + socket_file_name + ";\n    include /etc/nginx/fastcgi_params;\n}\n"@
    }

    pub fn new(
        pm: Apt,
        sm: ValetSystemDManager,
        cli: ValetCommandLine,
        files: ValetFilesystem,
        configuration: Configuration,
        site_secure: SiteSecure,
    ) -> (r: Nginx)
        ensures
            r.pm == pm,
            r.sm == sm,
            r.cli == cli,
            r.files == files,
            r.configuration == configuration,
            r.site_secure == site_secure,
    {
        Nginx { pm, sm, cli, files, configuration, site_secure }
    }

    /// Stages a restart of the server.
    pub fn restart(&mut self)
        ensures
            final(self).sm.cli.log() == old(self).sm.cli.log().push(
                (false, systemctl_cmd("restart"@, "nginx"@)),
            ),
            final(self).files == old(self).files,
            final(self).configuration == old(self).configuration,
            final(self).site_secure == old(self).site_secure,
            final(self).pm == old(self).pm,
    {
        proof {
            reveal_strlit("nginx");
        }
        self.sm.restart(vec!["nginx"]);
        proof {
            assert(final(self).sm.cli.log() =~= old(self).sm.cli.log().push(
                (false, systemctl_cmd("restart"@, "nginx"@)),
            ));
        }
    }

    /// Stages a stop of the server.
    pub fn stop(&mut self)
        ensures
            final(self).sm.cli.log() == old(self).sm.cli.log().push(
                (false, systemctl_cmd("stop"@, "nginx"@)),
            ),
            final(self).files == old(self).files,
            final(self).configuration == old(self).configuration,
            final(self).site_secure == old(self).site_secure,
            final(self).pm == old(self).pm,
    {
        proof {
            reveal_strlit("nginx");
        }
        self.sm.stop(vec!["nginx"]);
        proof {
            assert(final(self).sm.cli.log() =~= old(self).sm.cli.log().push(
                (false, systemctl_cmd("stop"@, "nginx"@)),
            ));
        }
    }

    /// Stages a status query of the server.
    pub fn status(&mut self)
        ensures
            final(self).sm.cli.log() == old(self).sm.cli.log().push(
                (false, "systemctl status "@ + "nginx"@),
            ),
            final(self).files == old(self).files,
            final(self).configuration == old(self).configuration,
    {
        self.sm.print_status("nginx");
    }

    /// Stages a stop of the apache service when it is absent, as the
    /// embedding application's probing dictates.
    pub fn handle_apache_service(&mut self)
        ensures
            final(self).files == old(self).files,
            final(self).configuration == old(self).configuration,
            final(self).site_secure == old(self).site_secure,
            final(self).pm == old(self).pm,
    {
        if self.pm.installed("apache2") {
            return;
        }
        if !self.sm.disabled("apache2") {
            self.sm.disable("apache2");
        }
        self.sm.stop(vec!["apache2"]);
    }

    /// The names of the generated per-site files: every entry of the
    /// generated-files directory that is not hidden.
    pub fn configured_sites(&self) -> (r: Vec<String>)
        requires
            self.files.wf(),
        ensures
            forall|i: int|
                0 <= i < r@.len() ==> self.files.has_entry(
                    self.home() + "/nginx/"@ + (#[trigger] r@[i])@,
                ) && r@[i]@.len() > 0 && r@[i]@[0] != '.' && !contains_seq(r@[i]@, "/"@),
            forall|n: Seq<char>|
                #[trigger] self.files.has_entry(self.home() + "/nginx/"@ + n) && !contains_seq(
                    n,
                    "/"@,
                ) && n.len() > 0 && n[0] != '.' ==> exists|i: int|
                    0 <= i < r@.len() && (#[trigger] r@[i])@ == n,
    {
        proof {
            reveal_strlit("/nginx");
            reveal_strlit("/");
            reveal_strlit("/nginx/");
            reveal_strlit(".");
            reveal_strlit(".keep");
        }
        let dir = concat_str(self.configuration.valet.home_path.as_str(), "/nginx");
        let entries = match self.files.scandir(dir.as_str()) {
            Ok(v) => v,
            Err(_) => Vec::new(),
        };
        let mut out: Vec<String> = Vec::new();
        let n = entries.len();
        let mut i: usize = 0;
        while i < n
            invariant
                self.files.wf(),
                n == entries@.len(),
                i <= n,
                dir@ == self.home() + "/nginx"@,
                self.files.listing_sound(dir@, entries@),
                forall|k: int|
                    0 <= k < out@.len() ==> self.files.has_entry(
                        self.home() + "/nginx/"@ + (#[trigger] out@[k])@,
                    ) && out@[k]@.len() > 0 && out@[k]@[0] != '.' && !contains_seq(
                        out@[k]@,
                        "/"@,
                    ),
                forall|k: int|
                    0 <= k < i ==> ((#[trigger] entries@[k])@.len() > 0 && entries@[k]@[0] != '.'
                        ==> exists|j: int|
                        0 <= j < out@.len() && (#[trigger] out@[j])@ == entries@[k]@),
            decreases n - i,
        {
            proof {
                reveal_strlit("/nginx");
                reveal_strlit("/");
                reveal_strlit("/nginx/");
                reveal_strlit(".");
            }
            let ghost pre_out = out@;
            let name = &entries[i];
            if !starts_with(name.as_str(), ".") {
                proof {
                    assert(entries@[i as int]@.len() > 0);
                    assert(!occurs_at(entries@[i as int]@, "."@, 0));
                    assert(entries@[i as int]@[0] != '.') by {
                        if entries@[i as int]@[0] == '.' {
                            assert(entries@[i as int]@.subrange(0, 1) =~= "."@);
                        }
                    }
                    assert(dir@ + "/"@ + entries@[i as int]@ =~= self.home() + "/nginx/"@
                        + entries@[i as int]@);
                }
                out.push(name.clone());
                proof {
                    assert(out@[out@.len() - 1]@ == entries@[i as int]@);
                }
            } else {
                proof {
                    assert(occurs_at(entries@[i as int]@, "."@, 0));
                    assert(entries@[i as int]@.subrange(0, 1)[0] == entries@[i as int]@[0]);
                    assert(entries@[i as int]@[0] == '.');
                }
            }
            proof {
                assert forall|k: int|
                    0 <= k < i + 1 implies ((#[trigger] entries@[k])@.len() > 0
                    && entries@[k]@[0] != '.' ==> exists|j: int|
                    0 <= j < out@.len() && (#[trigger] out@[j])@ == entries@[k]@) by {
                    if k < i && entries@[k]@.len() > 0 && entries@[k]@[0] != '.' {
                        let j = choose|j: int|
                            0 <= j < pre_out.len() && (#[trigger] pre_out[j])@ == entries@[k]@;
                        assert(out@[j]@ == entries@[k]@);
                    }
                }
            }
            i += 1;
        }
        proof {
            reveal_strlit("/nginx");
            reveal_strlit("/");
            reveal_strlit("/nginx/");
            reveal_strlit(".keep");
            assert forall|nm: Seq<char>|
                #[trigger] self.files.has_entry(self.home() + "/nginx/"@ + nm) && !contains_seq(
                    nm,
                    "/"@,
                ) && nm.len() > 0 && nm[0] != '.' implies exists|i2: int|
                0 <= i2 < out@.len() && (#[trigger] out@[i2])@ == nm by {
                assert(self.home() + "/nginx/"@ + nm =~= dir@ + "/"@ + nm);
                assert(nm != ".keep"@) by {
                    assert(".keep"@[0] == '.');
                }
                assert(self.files.has_entry(dir@ + "/"@ + nm));
                let k = choose|k: int|
                    0 <= k < entries@.len() && (#[trigger] entries@[k])@ == nm;
                let j = choose|j: int|
                    0 <= j < out@.len() && (#[trigger] out@[j])@ == entries@[k]@;
            }
        }
        out
    }

    /// Writes the main configuration, commenting the pid directive when
    /// the service unit already sets one, after backing the old file up.
    pub fn install_configuration(&mut self, nginx_service_unit: &str)
        requires
            old(self).wf(),
        ensures
            final(self).wf(),
            final(self).configuration == old(self).configuration,
            final(self).files.has_file("/etc/nginx/nginx.conf"@),
            final(self).files.file_at("/etc/nginx/nginx.conf"@) == old(self).spec_nginx_conf(
                contains_seq(nginx_service_unit@, "pid /"@),
            ),
            final(self).pm == old(self).pm,
    {
        let has_pid_option = contains_str(nginx_service_unit, "pid /");
        let pid_line: &str = if has_pid_option {
            "# pid /run/nginx.pid;\n"
        } else {
            "pid /run/nginx.pid;\n"
        };
        let c1 = concat_str("user ", self.configuration.valet.user.as_str());
        let c2 = concat_str(c1.as_str(), " ");
        let c3 = concat_str(c2.as_str(), self.configuration.valet.group.as_str());
        let c4 = concat_str(c3.as_str(), ";\nworker_processes auto;\n");
        let c5 = concat_str(c4.as_str(), pid_line);
        let c6 = concat_str(
            c5.as_str(),
            "events {\n    worker_connections 1024;\n}\nhttp {\n    include /etc/nginx/sites-enabled/*;\n    error_log ",
        );
        let c7 = concat_str(c6.as_str(), self.configuration.valet.home_path.as_str());
        let contents = concat_str(c7.as_str(), "/log/nginx-error.log;\n}\n");
        proof {
            assert(contents@ =~= self.spec_nginx_conf(contains_seq(nginx_service_unit@, "pid /"@)));
        }
        self.files.backup("/etc/nginx/nginx.conf");
        self.files.put("/etc/nginx/nginx.conf", contents.as_str());
    }

    /// Writes the default server block pointing at the given socket file
    /// name (the active version's socket when none is given), enables it,
    /// and refreshes the shared FastCGI parameters.
    pub fn install_server(&mut self, socket_file_name: Option<&str>)
        requires
            old(self).wf(),
        ensures
            final(self).wf(),
            final(self).configuration == old(self).configuration,
            final(self).files.has_file("/etc/nginx/sites-available/valet.conf"@),
            final(self).files.file_at("/etc/nginx/sites-available/valet.conf"@) == old(
                self,
            ).spec_server_block(
                match socket_file_name {
                    Option::Some(s) => s@,
                    Option::None => crate::php_fpm::spec_socket_name(
                        old(self).configuration.state.php_version@,
                    ),
                },
            ),
            !final(self).files.has_file("/etc/nginx/sites-enabled/default"@),
            // the block is enabled by a staged symlink command
            final(self).cli.log() == old(self).cli.log().push(
                (
                    false,
                    "ln -snf /etc/nginx/sites-available/valet.conf /etc/nginx/sites-enabled/valet.conf"@,
                ),
            ),
            // the shared FastCGI parameters are refreshed, the old file
            // kept as the backup
            final(self).files.has_file("/etc/nginx/fastcgi_params"@),
            final(self).files.file_at("/etc/nginx/fastcgi_params"@)
                == "fastcgi_param QUERY_STRING $query_string;\nfastcgi_param REQUEST_METHOD $request_method;\nfastcgi_param SCRIPT_FILENAME $document_root$fastcgi_script_name;\n"@,
            old(self).files.has_file("/etc/nginx/fastcgi_params"@) && !old(self).files.has_file(
                "/etc/nginx/fastcgi_params.bak"@,
            ) ==> final(self).files.has_file("/etc/nginx/fastcgi_params.bak"@) && final(self).files.file_at("/etc/nginx/fastcgi_params.bak"@) == old(self).files.file_at(
                "/etc/nginx/fastcgi_params"@,
            ),
            final(self).pm == old(self).pm,
    {
        let sock: String = match socket_file_name {
            Option::Some(s) => s.to_owned(),
            Option::None => crate::php_fpm::socket_name(
                self.configuration.state.php_version.as_str(),
            ),
        };
        let b1 = concat_str("server {\n    listen ", self.configuration.state.port.as_str());
        let b2 = concat_str(
            b1.as_str(),
            " default_server;\n    root /var/www/html;\n    fastcgi_pass unix:",
        );
        let b3 = concat_str(b2.as_str(), self.configuration.valet.home_path.as_str());
        let b4 = concat_str(b3.as_str(), "/");
        let b5 = concat_str(b4.as_str(), sock.as_str());
        let contents = concat_str(b5.as_str(), ";\n    include /etc/nginx/fastcgi_params;\n}\n");
        proof {
            assert(contents@ =~= self.spec_server_block(sock@));
        }
        self.files.put("/etc/nginx/sites-available/valet.conf", contents.as_str());
        if self.files.is_file("/etc/nginx/sites-enabled/default") {
            self.files.unlink("/etc/nginx/sites-enabled/default");
        }
        self.cli.run(
            "ln -snf /etc/nginx/sites-available/valet.conf /etc/nginx/sites-enabled/valet.conf",
        );
        let ghost m1 = *self;
        self.files.backup("/etc/nginx/fastcgi_params");
        let ghost m2 = *self;
        self.files.put(
            "/etc/nginx/fastcgi_params",
            "fastcgi_param QUERY_STRING $query_string;\nfastcgi_param REQUEST_METHOD $request_method;\nfastcgi_param SCRIPT_FILENAME $document_root$fastcgi_script_name;\n",
        );
        proof {
            reveal_strlit("/etc/nginx/sites-available/valet.conf");
            reveal_strlit("/etc/nginx/sites-enabled/default");
            reveal_strlit("/etc/nginx/fastcgi_params");
            assert("/etc/nginx/sites-available/valet.conf"@ != "/etc/nginx/sites-enabled/default"@)
                by {
                assert("/etc/nginx/sites-available/valet.conf"@.len()
                    != "/etc/nginx/sites-enabled/default"@.len());
            }
            assert("/etc/nginx/sites-available/valet.conf"@ != "/etc/nginx/fastcgi_params"@) by {
                assert("/etc/nginx/sites-available/valet.conf"@.len()
                    != "/etc/nginx/fastcgi_params"@.len());
            }
            assert("/etc/nginx/sites-enabled/default"@ != "/etc/nginx/fastcgi_params"@) by {
                assert("/etc/nginx/sites-enabled/default"@.len()
                    != "/etc/nginx/fastcgi_params"@.len());
            }
            reveal_strlit(".bak");
            let bak = "/etc/nginx/fastcgi_params"@ + ".bak"@;
            assert(bak != "/etc/nginx/sites-available/valet.conf"@) by {
                assert(bak.len() != "/etc/nginx/sites-available/valet.conf"@.len());
            }
            assert(bak != "/etc/nginx/sites-enabled/default"@) by {
                assert(bak.len() != "/etc/nginx/sites-enabled/default"@.len());
            }
            assert(bak != "/etc/nginx/fastcgi_params"@) by {
                assert(bak.len() != "/etc/nginx/fastcgi_params"@.len());
            }
            reveal_strlit("/etc/nginx/fastcgi_params.bak");
            assert(bak =~= "/etc/nginx/fastcgi_params.bak"@);
            let fc = "/etc/nginx/fastcgi_params"@;
            if old(self).files.has_file(fc) && !old(self).files.has_file(bak) {
                assert(m1.files.has_file(fc));
                assert(m1.files.file_at(fc) == old(self).files.file_at(fc));
                assert(!m1.files.has_file(bak));
                assert(m2.files.has_file(bak));
                assert(m2.files.file_at(bak) == m1.files.file_at(fc));
                assert(final(self).files.has_file(bak));
                assert(final(self).files.file_at(bak) == m2.files.file_at(bak));
            }
        }
    }

    /// Creates the generated-files directory and regenerates the secured
    /// sites' files under the current domain.
    pub fn install_nginx_directory(&mut self)
        requires
            old(self).wf(),
        ensures
            final(self).wf(),
            final(self).configuration == old(self).configuration,
            final(self).pm == old(self).pm,
    {
        let nginx_dir = concat_str(self.configuration.valet.home_path.as_str(), "/nginx");
        if !self.files.is_dir(nginx_dir.as_str()) {
            self.files.mkdir(nginx_dir.as_str(), 0o775);
        }
        let keep = concat_str(nginx_dir.as_str(), "/.keep");
        self.files.put(keep.as_str(), "\n");
        self.rewrite_secure_nginx_files();
    }

    /// Re-renders the secured sites' files for the current domain.
    pub fn rewrite_secure_nginx_files(&mut self)
        requires
            old(self).wf(),
        ensures
            final(self).wf(),
            final(self).configuration == old(self).configuration,
            final(self).pm == old(self).pm,
    {
        let domain = self.configuration.state.domain.clone();
        proof {
            assert(domain@.len() > 0);
        }
        self.site_secure.re_secure_for_new_domain(domain.as_str(), domain.as_str());
    }

    /// Installs the server: the package, the service, the directories,
    /// the main configuration and the default server block.
    pub fn install(&mut self, nginx_service_unit: &str)
        requires
            old(self).wf(),
        ensures
            final(self).wf(),
            final(self).configuration == old(self).configuration,
            final(self).pm.is_installed("nginx"@),
    {
        self.pm.ensure_installed("nginx");
        self.sm.enable("nginx");
        self.handle_apache_service();
        self.files.ensure_dir_exists(
            "/etc/nginx/sites-available",
            self.configuration.valet.user.as_str(),
            0o775,
        );
        self.files.ensure_dir_exists(
            "/etc/nginx/sites-enabled",
            self.configuration.valet.user.as_str(),
            0o775,
        );
        self.stop();
        self.install_configuration(nginx_service_unit);
        self.install_server(None);
        self.install_nginx_directory();
        proof {
            reveal_strlit("/etc/nginx/nginx.conf");
            reveal_strlit("/etc/nginx/sites-available/valet.conf");
            reveal_strlit("nginx");
        }
    }
}

} // verus!
