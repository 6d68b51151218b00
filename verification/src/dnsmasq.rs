//! The DNS component: installs the resolver, points the configured
//! domain at the loopback address, and stages the resolver rewiring.

use vstd::prelude::*;

use crate::error::ValetError;
use crate::manager::apt::Apt;
use crate::manager::command::ValetCommandLine;
use crate::manager::file_system::ValetFilesystem;
use crate::manager::service_manager::{service_cmd, ValetServiceManager};
use crate::strutil::concat_str;

verus! {

/// The local DNS resolver and its configuration files.
pub struct DnsMasq {
    pub pm: Apt,
    pub sm: ValetServiceManager,
    pub cli: ValetCommandLine,
    pub files: ValetFilesystem,
    pub rclocal: String,
    pub resolvconf: String,
    pub dnsmasqconf: String,
    pub dnsmasq_opts: String,
    pub resolved_config_path: String,
    pub config_path: String,
    pub nm_config_path: String,
}

impl DnsMasq {
    pub open spec fn wf(self) -> bool {
        &&& self.files.wf()
        &&& self.sm.files.wf()
        &&& self.rclocal@ == "/etc/rc.local"@
        &&& self.resolvconf@ == "/etc/resolv.conf"@
        &&& self.dnsmasqconf@ == "/etc/dnsmasq.conf"@
        &&& self.dnsmasq_opts@ == "/etc/dnsmasq.d/options"@
        &&& self.resolved_config_path@ == "/etc/systemd/resolved.conf"@
        &&& self.config_path@ == "/etc/dnsmasq.d/valet"@
        &&& self.nm_config_path@ == "/etc/NetworkManager/conf.d/valet.conf"@
    }

    /// The resolver entry that answers the domain with the loopback
    /// address.
    pub open spec fn spec_domain_config(domain: Seq<char>) -> Seq<char> {
        "address=/"@ + domain + "/127.0.0.1\nserver=1.1.1.1\nserver=8.8.8.8\n"@
    }

    pub fn new(pm: Apt, sm: ValetServiceManager, cli: ValetCommandLine, files: ValetFilesystem)
        -> (r: DnsMasq)
        requires
            files.wf(),
            sm.files.wf(),
        ensures
            r.pm == pm,
            r.sm == sm,
            r.cli == cli,
            r.files == files,
            r.wf(),
            r.config_path@ == "/etc/dnsmasq.d/valet"@,
            r.resolvconf@ == "/etc/resolv.conf"@,
    {
        DnsMasq {
            pm,
            sm,
            cli,
            files,
            rclocal: "/etc/rc.local".to_owned(),
            resolvconf: "/etc/resolv.conf".to_owned(),
            dnsmasqconf: "/etc/dnsmasq.conf".to_owned(),
            dnsmasq_opts: "/etc/dnsmasq.d/options".to_owned(),
            resolved_config_path: "/etc/systemd/resolved.conf".to_owned(),
            config_path: "/etc/dnsmasq.d/valet".to_owned(),
            nm_config_path: "/etc/NetworkManager/conf.d/valet.conf".to_owned(),
        }
    }

    /// Writes the domain's resolver entry.
    fn create_custom_config_file(&mut self, domain: &str)
        requires
            old(self).wf(),
        ensures
            final(self).wf(),
            final(self).files.has_file(old(self).config_path@),
            final(self).files.file_at(old(self).config_path@) == Self::spec_domain_config(
                domain@,
            ),
            final(self).config_path == old(self).config_path,
            final(self).sm == old(self).sm,
            final(self).cli == old(self).cli,
            final(self).pm == old(self).pm,
    {
        let c1 = concat_str("address=/", domain);
        let contents = concat_str(c1.as_str(), "/127.0.0.1\nserver=1.1.1.1\nserver=8.8.8.8\n");
        proof {
            assert(contents@ =~= Self::spec_domain_config(domain@));
        }
        let path = self.config_path.clone();
        self.files.put(path.as_str(), contents.as_str());
    }

    /// Stages a lock of the resolver file when it is a plain file.
    fn lock_resolv_conf(&mut self)
        requires
            old(self).wf(),
        ensures
            final(self).wf(),
            final(self).files == old(self).files,
            final(self).config_path == old(self).config_path,
            final(self).pm == old(self).pm,
            final(self).sm == old(self).sm,
            final(self).rclocal == old(self).rclocal,
            final(self).dnsmasqconf == old(self).dnsmasqconf,
            final(self).dnsmasq_opts == old(self).dnsmasq_opts,
            final(self).nm_config_path == old(self).nm_config_path,
            final(self).resolved_config_path == old(self).resolved_config_path,
            final(self).resolvconf == old(self).resolvconf,
    {
        if !self.files.is_link(self.resolvconf.as_str()) {
            let c = concat_str("chattr -i ", self.resolvconf.as_str());
            self.cli.run(c.as_str());
        }
    }

    /// Replaces the DNS helper installation directory and removes the
    /// old helper service.
    fn merge_dns(&mut self)
        requires
            old(self).wf(),
        ensures
            final(self).wf(),
            final(self).config_path == old(self).config_path,
            final(self).pm == old(self).pm,
            final(self).dnsmasqconf == old(self).dnsmasqconf,
            final(self).dnsmasq_opts == old(self).dnsmasq_opts,
            final(self).nm_config_path == old(self).nm_config_path,
    {
        self.files.remove("/opt/valet-linux");
        self.sm.remove_valet_dns();
        let rclocal = self.rclocal.clone();
        if self.files.path_exists(rclocal.as_str()) {
            self.files.restore(rclocal.as_str());
        }
    }

    /// Stages a stop and disable of the system resolver.
    fn stop_resolved(&mut self)
        requires
            old(self).wf(),
        ensures
            final(self).wf(),
            final(self).files == old(self).files,
            final(self).config_path == old(self).config_path,
            final(self).pm == old(self).pm,
    {
        if !self.sm.disabled("systemd-resolved") {
            self.sm.disable("systemd-resolved");
        }
        self.sm.stop(vec!["systemd-resolved"]);
    }

    /// Installs the resolver package and rewires its configuration.
    fn dnsmasq_setup(&mut self)
        requires
            old(self).wf(),
        ensures
            final(self).wf(),
            final(self).config_path == old(self).config_path,
            final(self).pm.is_installed("dnsmasq"@),
    {
        self.pm.ensure_installed("dnsmasq");
        self.sm.enable("dnsmasq");
        self.files.ensure_dir_exists("/etc/NetworkManager/conf.d", "root", 0o775);
        self.files.ensure_dir_exists("/etc/dnsmasq.d", "root", 0o775);
        self.cli.run("sed -i '/IGNORE_RESOLVCONF/ s/# *//' /etc/default/dnsmasq");
        self.lock_resolv_conf();
        self.merge_dns();
        self.files.unlink("/etc/dnsmasq.d/network-manager");
        let dconf = self.dnsmasqconf.clone();
        self.files.backup(dconf.as_str());
        self.files.put(dconf.as_str(), "conf-dir=/etc/dnsmasq.d/,*.conf\n");
        let dopts = self.dnsmasq_opts.clone();
        self.files.put(dopts.as_str(), "listen-address=127.0.0.1\nbind-interfaces\n");
        let nmc = self.nm_config_path.clone();
        self.files.put(nmc.as_str(), "[main]\ndns=none\n");
    }

    /// Installs the resolver and answers the domain locally.
    pub fn install(&mut self, domain: &str) -> (r: Result<(), ValetError>)
        requires
            old(self).wf(),
        ensures
            final(self).wf(),
            r is Ok,
            final(self).files.has_file(old(self).config_path@),
            final(self).files.file_at(old(self).config_path@) == Self::spec_domain_config(
                domain@,
            ),
    {
        self.dnsmasq_setup();
        self.stop_resolved();
        self.create_custom_config_file(domain);
        self.sm.restart(vec!["dnsmasq"]);
        Ok(())
    }

    /// Stages a stop of the resolver.
    pub fn stop(&mut self)
        ensures
            final(self).files == old(self).files,
    {
        self.sm.stop(vec!["dnsmasq"]);
    }

    /// Stages a restart of the resolver.
    pub fn restart(&mut self)
        ensures
            final(self).files == old(self).files,
    {
        self.sm.restart(vec!["dnsmasq"]);
    }

    /// Rewrites the domain's resolver entry and stages a restart.
    pub fn update_domain(&mut self, new_domain: &str)
        requires
            old(self).wf(),
        ensures
            final(self).wf(),
            final(self).files.has_file(old(self).config_path@),
            final(self).files.file_at(old(self).config_path@) == Self::spec_domain_config(
                new_domain@,
            ),
            // the resolver restart is staged after the rewrite
            final(self).sm.cli.log() == old(self).sm.cli.log().push(
                (false, service_cmd("restart"@, "dnsmasq"@)),
            ),
            final(self).cli == old(self).cli,
            final(self).pm == old(self).pm,
    {
        self.create_custom_config_file(new_domain);
        self.sm.restart(vec!["dnsmasq"]);
        proof {
            reveal_strlit("dnsmasq");
            assert(final(self).sm.cli.log() =~= old(self).sm.cli.log().push(
                (false, service_cmd("restart"@, "dnsmasq"@)),
            ));
        }
    }

    /// Rolls the resolver rewiring back.
    pub fn uninstall(&mut self) -> (r: Result<(), ValetError>)
        requires
            old(self).wf(),
        ensures
            final(self).wf(),
            r is Ok,
            !final(self).files.has_file(old(self).config_path@),
    {
        self.sm.remove_valet_dns();
        self.cli.passthru("rm -rf /opt/valet-linux");
        let cp = self.config_path.clone();
        let dopts = self.dnsmasq_opts.clone();
        let nmc = self.nm_config_path.clone();
        let resolved = self.resolved_config_path.clone();
        let rclocal = self.rclocal.clone();
        let resolvconf = self.resolvconf.clone();
        let dconf = self.dnsmasqconf.clone();
        self.files.unlink(cp.as_str());
        self.files.unlink(dopts.as_str());
        self.files.unlink(nmc.as_str());
        self.files.restore(resolved.as_str());
        self.lock_resolv_conf();
        self.files.restore(rclocal.as_str());
        self.cli.passthru("rm -f /etc/resolv.conf");
        self.sm.stop(vec!["systemd-resolved"]);
        self.sm.start(vec!["systemd-resolved"]);
        let ghost m = self.files;
        self.files.symlink("/run/systemd/resolve/resolv.conf", resolvconf.as_str());
        proof {
            crate::manager::file_system::ValetFilesystem::lemma_same_file_table(self.files, m);
        }
        self.files.restore(dconf.as_str());
        self.cli.run("sed -i '/IGNORE_RESOLVCONF/ s/^/# /' /etc/default/dnsmasq");
        self.pm.restart_network_manager();
        self.sm.restart(vec!["dnsmasq"]);
        proof {
            reveal_strlit("/etc/dnsmasq.d/valet");
            reveal_strlit("/etc/dnsmasq.d/options");
            reveal_strlit("/etc/NetworkManager/conf.d/valet.conf");
            reveal_strlit("/etc/systemd/resolved.conf");
            reveal_strlit("/etc/rc.local");
            reveal_strlit("/etc/dnsmasq.conf");
            reveal_strlit(".bak");
            let cpv = old(self).config_path@;
            assert(cpv != old(self).resolved_config_path@ && cpv
                != old(self).resolved_config_path@ + ".bak"@) by {
                assert(cpv.len() != old(self).resolved_config_path@.len());
                assert(cpv.len() != (old(self).resolved_config_path@ + ".bak"@).len());
            }
            assert(cpv != old(self).rclocal@ && cpv != old(self).rclocal@ + ".bak"@) by {
                assert(cpv.len() != old(self).rclocal@.len());
                assert(cpv.len() != (old(self).rclocal@ + ".bak"@).len());
            }
            assert(cpv != old(self).dnsmasqconf@ && cpv != old(self).dnsmasqconf@ + ".bak"@) by {
                assert(cpv.len() != old(self).dnsmasqconf@.len());
                assert(cpv.len() != (old(self).dnsmasqconf@ + ".bak"@).len());
            }
        }
        Ok(())
    }
}

} // verus!
