//! Host requirements, checked before anything is installed: the home
//! directory must not live under the superuser's home, and SELinux must
//! not be enforcing.

use vstd::prelude::*;

use crate::error::ValetError;
use crate::manager::command::ValetCommandLine;
use crate::strutil::{contains_seq, contains_str, occurs_at, starts_with};

verus! {

/// The preconditions the host must meet.
pub struct Requirements {
    pub cli: ValetCommandLine,
    pub ignore_selinux: bool,
}

impl Requirements {
    pub fn new(cli: ValetCommandLine, ignore_selinux: bool) -> (r: Requirements)
        ensures
            r.cli == cli,
            r.ignore_selinux == ignore_selinux,
    {
        Requirements { cli, ignore_selinux }
    }

    /// Chooses whether the SELinux check is skipped.
    pub fn set_ignore_selinux(&mut self, ignore: bool)
        ensures
            final(self).ignore_selinux == ignore,
            final(self).cli == old(self).cli,
    {
        self.ignore_selinux = ignore;
    }

    /// The home directory must not be under the superuser's home.
    pub fn home_path_is_inside_root(&self, home_path: &str) -> (r: Result<(), ValetError>)
        ensures
            r is Ok <==> !occurs_at(home_path@, "/root/"@, 0),
            r is Err ==> r->Err_0 is ValidationFailure,
    {
        if starts_with(home_path, "/root/") {
            Err(
                ValetError::ValidationFailure(
                    "the home directory is inside the superuser home".to_owned(),
                ),
            )
        } else {
            Ok(())
        }
    }

    /// SELinux must not be enforcing, as its status output shows.
    pub fn selinux_is_enabled(&self, sestatus_output: &str) -> (r: Result<(), ValetError>)
        ensures
            r is Ok <==> self.ignore_selinux || !(contains_seq(
                sestatus_output@,
                "SELinux status: enabled"@,
            ) && contains_seq(sestatus_output@, "Current mode: enforcing"@)),
            r is Err ==> r->Err_0 is ValidationFailure,
    {
        if self.ignore_selinux {
            return Ok(());
        }
        if contains_str(sestatus_output, "SELinux status: enabled") && contains_str(
            sestatus_output,
            "Current mode: enforcing",
        ) {
            Err(ValetError::ValidationFailure("SELinux is in enforcing mode".to_owned()))
        } else {
            Ok(())
        }
    }

    /// Checks every requirement against the probed host state.
    pub fn check(&self, home_path: &str, sestatus_output: &str) -> (r: Result<(), ValetError>)
        ensures
            r is Ok <==> (!occurs_at(home_path@, "/root/"@, 0) && (self.ignore_selinux
                || !(contains_seq(sestatus_output@, "SELinux status: enabled"@) && contains_seq(
                sestatus_output@,
                "Current mode: enforcing"@,
            )))),
            r is Err ==> r->Err_0 is ValidationFailure,
    {
        match self.home_path_is_inside_root(home_path) {
            Ok(()) => {
            },
            Err(e) => {
                return Err(e);
            },
        }
        self.selinux_is_enabled(sestatus_output)
    }
}

} // verus!
