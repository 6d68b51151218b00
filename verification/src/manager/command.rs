//! The command recorder: components stage the external commands an
//! operation needs; the embedding application executes the recorded list
//! in order after the operation returns.

use vstd::prelude::*;

verus! {

/// Records the shell commands an operation wants run. The flag of each
/// entry says whether the command must run as the unprivileged user
/// rather than the invoking one.
pub struct ValetCommandLine {
    pub commands: Vec<(bool, String)>,
}

impl ValetCommandLine {
    /// The recorded commands: a flag for "run as the unprivileged user"
    /// and the command text, oldest first.
    pub open spec fn log(self) -> Seq<(bool, Seq<char>)> {
        self.commands@.map_values(|p: (bool, String)| (p.0, p.1@))
    }

    pub fn new() -> (r: Self)
        ensures
            r.log() == Seq::<(bool, Seq<char>)>::empty(),
    {
        let r = ValetCommandLine { commands: Vec::new() };
        proof {
            assert(r.log() =~= Seq::<(bool, Seq<char>)>::empty());
        }
        r
    }

    /// Hands the recorded commands out for execution.
    pub fn drain(&mut self) -> (r: Vec<(bool, String)>)
        ensures
            r@.map_values(|p: (bool, String)| (p.0, p.1@)) == old(self).log(),
            final(self).log() == Seq::<(bool, Seq<char>)>::empty(),
    {
        let mut out: Vec<(bool, String)> = Vec::new();
        core::mem::swap(&mut out, &mut self.commands);
        proof {
            assert(final(self).log() =~= Seq::<(bool, Seq<char>)>::empty());
        }
        out
    }

    /// Records a command to run, discarding its output.
    pub fn run(&mut self, command: &str)
        ensures
            final(self).log() == old(self).log().push((false, command@)),
    {
        self.commands.push((false, command.to_owned()));
        proof {
            assert(final(self).log() =~= old(self).log().push((false, command@)));
        }
    }

    /// Records a command whose output the caller does not want shown.
    pub fn quietly(&mut self, command: &str)
        ensures
            final(self).log() == old(self).log().push((false, command@)),
    {
        self.run(command)
    }

    /// Records a command to run with its output passed through.
    pub fn passthru(&mut self, command: &str)
        ensures
            final(self).log() == old(self).log().push((false, command@)),
    {
        self.run(command)
    }

    /// Records a command to run as the unprivileged user.
    pub fn run_as_user(&mut self, command: &str)
        ensures
            final(self).log() == old(self).log().push((true, command@)),
    {
        self.commands.push((true, command.to_owned()));
        proof {
            assert(final(self).log() =~= old(self).log().push((true, command@)));
        }
    }

    /// Records a quiet command to run as the unprivileged user.
    pub fn quietly_as_user(&mut self, command: &str)
        ensures
            final(self).log() == old(self).log().push((true, command@)),
    {
        self.run_as_user(command)
    }
}

} // verus!
