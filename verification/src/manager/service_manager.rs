//! The legacy-init service manager: stages `service` and `update-rc.d`
//! commands and tracks which services are enabled.

use vstd::prelude::*;

use crate::error::ValetError;
use crate::manager::command::ValetCommandLine;
use crate::manager::file_system::ValetFilesystem;
use crate::strutil::{concat_str, contains_seq, contains_str};

verus! {

/// Service control through the legacy `service`/`update-rc.d` tools.
pub struct ValetServiceManager {
    pub cli: ValetCommandLine,
    pub files: ValetFilesystem,
    pub enabled: Vec<String>,
}

/// The command that applies `action` to `service` under legacy init.
pub open spec fn service_cmd(action: Seq<char>, service: Seq<char>) -> Seq<char> {
    "sudo service "@ + service + " "@ + action
}

impl ValetServiceManager {
    /// A service is marked enabled.
    pub open spec fn is_enabled(self, s: Seq<char>) -> bool {
        exists|i: int| 0 <= i < self.enabled@.len() && (#[trigger] self.enabled@[i])@ == s
    }

    pub fn new(cli: ValetCommandLine, files: ValetFilesystem) -> (r: Self)
        ensures
            r.cli == cli,
            r.files == files,
            forall|s: Seq<char>| !r.is_enabled(s),
    {
        ValetServiceManager { cli, files, enabled: Vec::new() }
    }

    /// Marks a service as enabled, as probed by the embedding application.
    pub fn mark_enabled(&mut self, service: &str)
        ensures
            forall|s: Seq<char>|
                final(self).is_enabled(s) == (old(self).is_enabled(s) || s == service@),
            final(self).cli == old(self).cli,
            final(self).files == old(self).files,
    {
        let n = self.enabled.len();
        self.enabled.push(service.to_owned());
        proof {
            assert(final(self).enabled@[n as int]@ == service@);
            assert forall|s: Seq<char>|
                final(self).is_enabled(s) == (old(self).is_enabled(s) || s == service@) by {
                if final(self).is_enabled(s) {
                    let k = choose|k: int|
                        0 <= k < final(self).enabled@.len() && (#[trigger] final(self).enabled@[k])@ == s;
                    if k < n {
                        assert(old(self).enabled@[k]@ == s);
                    }
                }
                if old(self).is_enabled(s) {
                    let k = choose|k: int|
                        0 <= k < old(self).enabled@.len() && (#[trigger] old(self).enabled@[k])@
                            == s;
                    assert(final(self).enabled@[k]@ == s);
                }
            }
        }
    }

    /// Stages one `service <name> <action>` command per service.
    fn handle_service(&mut self, services: Vec<&str>, action: &str)
        ensures
            final(self).cli.log().len() == old(self).cli.log().len() + services@.len(),
            forall|i: int|
                0 <= i < old(self).cli.log().len() ==> final(self).cli.log()[i] == old(self).cli.log()[i],
            forall|i: int|
                0 <= i < services@.len() ==> final(self).cli.log()[old(self).cli.log().len() + i]
                    == (false, service_cmd(action@, (#[trigger] services@[i])@)),
            final(self).files == old(self).files,
            final(self).enabled@ == old(self).enabled@,
    {
        proof {
            reveal_strlit("sudo service ");
            reveal_strlit(" ");
        }
        let n = services.len();
        let mut i: usize = 0;
        while i < n
            invariant
                n == services@.len(),
                i <= n,
                self.cli.log().len() == old(self).cli.log().len() + i,
                forall|j: int|
                    0 <= j < old(self).cli.log().len() ==> self.cli.log()[j] == old(self).cli.log()[j],
                forall|j: int|
                    0 <= j < i ==> self.cli.log()[old(self).cli.log().len() + j] == (
                    false,
                    service_cmd(action@, (#[trigger] services@[j])@),
                ),
                self.files == old(self).files,
                self.enabled@ == old(self).enabled@,
            decreases n - i,
        {
            let c1 = concat_str("sudo service ", services[i]);
            let c2 = concat_str(c1.as_str(), " ");
            let c3 = concat_str(c2.as_str(), action);
            proof {
                assert(c3@ =~= service_cmd(action@, services@[i as int]@));
            }
            self.cli.run(c3.as_str());
            i += 1;
        }
    }

    pub fn start(&mut self, services: Vec<&str>)
        ensures
            final(self).cli.log().len() == old(self).cli.log().len() + services@.len(),
            forall|i: int|
                0 <= i < old(self).cli.log().len() ==> final(self).cli.log()[i] == old(self).cli.log()[i],
            forall|i: int|
                0 <= i < services@.len() ==> final(self).cli.log()[old(self).cli.log().len() + i]
                    == (false, service_cmd("start"@, (#[trigger] services@[i])@)),
            final(self).files == old(self).files,
            final(self).enabled@ == old(self).enabled@,
    {
        self.handle_service(services, "start")
    }

    pub fn stop(&mut self, services: Vec<&str>)
        ensures
            final(self).cli.log().len() == old(self).cli.log().len() + services@.len(),
            forall|i: int|
                0 <= i < old(self).cli.log().len() ==> final(self).cli.log()[i] == old(self).cli.log()[i],
            forall|i: int|
                0 <= i < services@.len() ==> final(self).cli.log()[old(self).cli.log().len() + i]
                    == (false, service_cmd("stop"@, (#[trigger] services@[i])@)),
            final(self).files == old(self).files,
            final(self).enabled@ == old(self).enabled@,
    {
        self.handle_service(services, "stop")
    }

    pub fn restart(&mut self, services: Vec<&str>)
        ensures
            final(self).cli.log().len() == old(self).cli.log().len() + services@.len(),
            forall|i: int|
                0 <= i < old(self).cli.log().len() ==> final(self).cli.log()[i] == old(self).cli.log()[i],
            forall|i: int|
                0 <= i < services@.len() ==> final(self).cli.log()[old(self).cli.log().len() + i]
                    == (false, service_cmd("restart"@, (#[trigger] services@[i])@)),
            final(self).files == old(self).files,
            final(self).enabled@ == old(self).enabled@,
    {
        self.handle_service(services, "restart")
    }

    /// Stages a status query whose output the application shows.
    pub fn print_status(&mut self, service: &str)
        ensures
            final(self).cli.log() == old(self).cli.log().push(
                (false, "service "@ + service@ + " status"@),
            ),
            final(self).files == old(self).files,
            final(self).enabled@ == old(self).enabled@,
    {
        proof {
            reveal_strlit("service ");
            reveal_strlit(" status");
        }
        let c1 = concat_str("service ", service);
        let c2 = concat_str(c1.as_str(), " status");
        self.cli.run(c2.as_str());
    }

    /// Resolves the real name of a service from a status query's output.
    pub fn get_real_service(&self, service: &str, status_output: &str) -> (r: Result<
        String,
        ValetError,
    >)
        ensures
            match r {
                Ok(s) => s@ == service@ && !contains_seq(status_output@, "not-found"@),
                Err(e) => contains_seq(status_output@, "not-found"@) && e is ProcessFailure,
            },
    {
        if contains_str(status_output, "not-found") {
            Err(ValetError::ProcessFailure("unable to determine the service name".to_owned()))
        } else {
            Ok(service.to_owned())
        }
    }

    /// A service not marked enabled counts as disabled.
    pub fn disabled(&self, service: &str) -> (r: bool)
        ensures
            r == !self.is_enabled(service@),
    {
        let n = self.enabled.len();
        let mut i: usize = 0;
        while i < n
            invariant
                n == self.enabled@.len(),
                i <= n,
                forall|j: int| 0 <= j < i ==> (#[trigger] self.enabled@[j])@ != service@,
            decreases n - i,
        {
            if crate::strutil::str_eq(self.enabled[i].as_str(), service) {
                return false;
            }
            i += 1;
        }
        true
    }

    /// Stages the commands that disable a service at boot.
    pub fn disable(&mut self, service: &str)
        ensures
            final(self).cli.log() == old(self).cli.log().push(
                (false, "sudo chmod -x /etc/init.d/"@ + service@),
            ).push((false, "sudo update-rc.d "@ + service@ + " defaults"@)),
            final(self).files == old(self).files,
    {
        proof {
            reveal_strlit("sudo chmod -x /etc/init.d/");
            reveal_strlit("sudo update-rc.d ");
            reveal_strlit(" defaults");
        }
        let c1 = concat_str("sudo chmod -x /etc/init.d/", service);
        self.cli.quietly(c1.as_str());
        let c2 = concat_str("sudo update-rc.d ", service);
        let c3 = concat_str(c2.as_str(), " defaults");
        self.cli.quietly(c3.as_str());
    }

    /// Stages the command that enables a service at boot and marks it
    /// enabled.
    pub fn enable(&mut self, service: &str)
        ensures
            final(self).cli.log() == old(self).cli.log().push(
                (false, "sudo update-rc.d "@ + service@ + " defaults"@),
            ),
            forall|s: Seq<char>|
                final(self).is_enabled(s) == (old(self).is_enabled(s) || s == service@),
            final(self).files == old(self).files,
    {
        proof {
            reveal_strlit("sudo update-rc.d ");
            reveal_strlit(" defaults");
        }
        let c1 = concat_str("sudo update-rc.d ", service);
        let c2 = concat_str(c1.as_str(), " defaults");
        self.cli.quietly(c2.as_str());
        let ghost m = *self;
        self.mark_enabled(service);
        proof {
            assert(m.enabled@ == old(self).enabled@);
            assert forall|s: Seq<char>|
                final(self).is_enabled(s) == (old(self).is_enabled(s) || s == service@) by {
                if m.is_enabled(s) {
                    let k = choose|k: int|
                        0 <= k < m.enabled@.len() && (#[trigger] m.enabled@[k])@ == s;
                    assert(old(self).enabled@[k]@ == s);
                }
                if old(self).is_enabled(s) {
                    let k = choose|k: int|
                        0 <= k < old(self).enabled@.len() && (#[trigger] old(self).enabled@[k])@
                            == s;
                    assert(m.enabled@[k]@ == s);
                }
            }
        }
    }

    pub fn is_systemd(&self) -> (r: bool)
        ensures
            r == false,
    {
        false
    }

    /// Removes the staged DNS helper service file and stages the commands
    /// that stop it.
    pub fn remove_valet_dns(&mut self)
        requires
            old(self).files.wf(),
        ensures
            final(self).files.wf(),
            !final(self).files.has_file("/etc/init.d/valet-dns"@),
    {
        if self.files.path_exists("/etc/init.d/valet-dns") {
            self.disable("valet-dns");
            self.stop(vec!["valet-dns"]);
            self.files.remove("/etc/init.d/valet-dns");
        } else {
            proof {
                assert(!self.files.has_file("/etc/init.d/valet-dns"@));
            }
        }
    }
}

} // verus!
