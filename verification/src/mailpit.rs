//! The mail-catcher service: its installation and service control.

use vstd::prelude::*;

use crate::manager::apt::Apt;
use crate::manager::command::ValetCommandLine;
use crate::manager::file_system::ValetFilesystem;
use crate::manager::service_manager::{service_cmd, ValetServiceManager};

verus! {

/// The local mail catcher.
pub struct Mailpit {
    pub pm: Apt,
    pub sm: ValetServiceManager,
    pub cli: ValetCommandLine,
    pub files: ValetFilesystem,
}

impl Mailpit {
    pub fn new(pm: Apt, sm: ValetServiceManager, cli: ValetCommandLine, files: ValetFilesystem)
        -> (r: Mailpit)
        ensures
            r.pm == pm,
            r.sm == sm,
            r.cli == cli,
            r.files == files,
    {
        Mailpit { pm, sm, cli, files }
    }

    /// Stages a start of the service.
    pub fn start(&mut self)
        ensures
            final(self).files == old(self).files,
            final(self).sm.cli.log() == old(self).sm.cli.log().push(
                (false, service_cmd("start"@, "mailpit"@)),
            ),
    {
        proof {
            reveal_strlit("mailpit");
        }
        self.sm.start(vec!["mailpit"]);
        proof {
            assert(final(self).sm.cli.log() =~= old(self).sm.cli.log().push(
                (false, service_cmd("start"@, "mailpit"@)),
            ));
        }
    }

    /// Stages a restart of the service.
    pub fn restart(&mut self)
        ensures
            final(self).files == old(self).files,
            final(self).sm.cli.log() == old(self).sm.cli.log().push(
                (false, service_cmd("restart"@, "mailpit"@)),
            ),
    {
        proof {
            reveal_strlit("mailpit");
        }
        self.sm.restart(vec!["mailpit"]);
        proof {
            assert(final(self).sm.cli.log() =~= old(self).sm.cli.log().push(
                (false, service_cmd("restart"@, "mailpit"@)),
            ));
        }
    }

    /// Stages a stop of the service.
    pub fn stop(&mut self)
        ensures
            final(self).files == old(self).files,
            final(self).sm.cli.log() == old(self).sm.cli.log().push(
                (false, service_cmd("stop"@, "mailpit"@)),
            ),
    {
        proof {
            reveal_strlit("mailpit");
        }
        self.sm.stop(vec!["mailpit"]);
        proof {
            assert(final(self).sm.cli.log() =~= old(self).sm.cli.log().push(
                (false, service_cmd("stop"@, "mailpit"@)),
            ));
        }
    }

    /// Stages a status query of the service.
    pub fn status(&mut self)
        ensures
            final(self).files == old(self).files,
            final(self).sm.cli.log() == old(self).sm.cli.log().push(
                (false, "service "@ + "mailpit"@ + " status"@),
            ),
    {
        self.sm.print_status("mailpit");
    }

    /// Uninstalling only stops the service; nothing durable is removed.
    pub fn uninstall(&mut self)
        ensures
            final(self).files == old(self).files,
    {
        self.stop();
    }

    /// Writes the service definition for the init system in use, enables
    /// the service, and stages the permission fix the legacy init needs.
    pub fn create_service(&mut self, is_systemd: bool)
        requires
            old(self).files.wf(),
        ensures
            final(self).files.wf(),
            is_systemd ==> final(self).files.has_file("/etc/systemd/system/mailpit.service"@),
            !is_systemd ==> final(self).files.has_file("/etc/init.d/mailpit"@),
    {
        if is_systemd {
            self.files.put(
                "/etc/systemd/system/mailpit.service",
                "[Unit]\nDescription=mail catcher\n[Service]\nExecStart=/usr/local/bin/mailpit\n[Install]\nWantedBy=multi-user.target\n",
            );
        } else {
            self.files.put(
                "/etc/init.d/mailpit",
                "#!/bin/sh\nexec /usr/local/bin/mailpit\n",
            );
            self.cli.run("chmod +x /etc/init.d/mailpit");
        }
        self.sm.enable("mailpit");
    }

    /// Installs the catcher: the binary when missing, its service, and a
    /// start.
    pub fn install(&mut self, is_available: bool, is_systemd: bool)
        requires
            old(self).files.wf(),
        ensures
            final(self).files.wf(),
            is_systemd ==> final(self).files.has_file("/etc/systemd/system/mailpit.service"@),
            !is_systemd ==> final(self).files.has_file("/etc/init.d/mailpit"@),
    {
        self.ensure_installed(is_available);
        self.create_service(is_systemd);
        self.sm.start(vec!["mailpit"]);
    }

    /// Stages the install script unless the catcher is available, as the
    /// embedding application's probing shows.
    pub fn ensure_installed(&mut self, is_available: bool)
        ensures
            final(self).files == old(self).files,
            is_available ==> *final(self) == *old(self),
    {
        if !is_available {
            self.cli.run_as_user("curl -sL https://example.invalid/mailpit-install.sh | bash");
        }
    }
}

} // verus!
