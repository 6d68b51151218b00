//! Site enumeration: the parked and linked sites, their URLs under the
//! configured domain, and the per-site PHP version pin file.

use vstd::prelude::*;
use vstd::string::StrSliceExecFns;

use crate::configuration::Configuration;
use crate::error::ValetError;
use crate::manager::command::ValetCommandLine;
use crate::manager::file_system::ValetFilesystem;
use crate::php_fpm::{normalize_version, spec_normalize, PhpFpm};
use crate::strutil::{concat_str, occurs_at, replace_all, spec_replace, spec_trim, str_eq, trim_str};

verus! {

/// The served sites of the installation.
pub struct Site {
    pub config: Configuration,
    pub cli: ValetCommandLine,
    pub files: ValetFilesystem,
    pub fpm: PhpFpm,
}

impl Site {
    pub open spec fn wf(self) -> bool {
        &&& self.files.wf()
        &&& self.config.wf()
    }

    pub open spec fn home(self) -> Seq<char> {
        self.config.valet.home_path@
    }

    pub fn new(
        config: Configuration,
        cli: ValetCommandLine,
        files: ValetFilesystem,
        fpm: PhpFpm,
    ) -> (r: Site)
        ensures
            r.config == config,
            r.cli == cli,
            r.files == files,
            r.fpm == fpm,
    {
        Site { config, cli, files, fpm }
    }

    /// Outside the pruned entries, `now` agrees with the file and link
    /// tables of `pre`.
    pub open spec fn untouched_outside_pruned(
        pre: ValetFilesystem,
        now: ValetFilesystem,
        broken: Seq<String>,
    ) -> bool {
        forall|q: Seq<char>|
            (forall|j: int| 0 <= j < broken.len() ==> q != (#[trigger] broken[j])@)
                ==> #[trigger] now.has_file(q) == pre.has_file(q) && (pre.has_file(q)
                ==> now.file_at(q) == pre.file_at(q)) && now.has_link(q) == pre.has_link(q)
    }

    /// Ensures the links directory exists and removes the given broken
    /// links, as probed by the embedding application.
    pub fn prune_links(&mut self, broken: &Vec<String>)
        requires
            old(self).files.wf(),
        ensures
            final(self).files.wf(),
            final(self).config == old(self).config,
            final(self).files.has_dir(old(self).home() + "/sites"@),
            forall|i: int|
                0 <= i < broken@.len() ==> !final(self).files.has_file(
                    (#[trigger] broken@[i])@,
                ) && !final(self).files.has_link(broken@[i]@),
            // every entry not named broken is untouched
            Self::untouched_outside_pruned(old(self).files, final(self).files, broken@),
            final(self).cli == old(self).cli,
            final(self).fpm == old(self).fpm,
    {
        let sites_dir = concat_str(self.config.valet.home_path.as_str(), "/sites");
        self.files.ensure_dir_exists(sites_dir.as_str(), self.config.valet.user.as_str(), 0o775);
        proof {
            ValetFilesystem::lemma_same_file_table(self.files, old(self).files);
            ValetFilesystem::lemma_same_links(self.files, old(self).files);
        }
        let n = broken.len();
        let mut i: usize = 0;
        while i < n
            invariant
                self.files.wf(),
                self.config == old(self).config,
                self.cli == old(self).cli,
                self.fpm == old(self).fpm,
                self.files.has_dir(old(self).home() + "/sites"@),
                n == broken@.len(),
                i <= n,
                forall|j: int|
                    0 <= j < i ==> !self.files.has_file((#[trigger] broken@[j])@)
                        && !self.files.has_link(broken@[j]@),
                Self::untouched_outside_pruned(old(self).files, self.files, broken@),
            decreases n - i,
        {
            let ghost pre = *self;
            self.files.unlink(broken[i].as_str());
            proof {
                assert(Self::untouched_outside_pruned(old(self).files, self.files, broken@)) by {
                    assert forall|q: Seq<char>|
                        (forall|j: int| 0 <= j < broken@.len() ==> q != (#[trigger] broken@[j])@)
                            implies #[trigger] self.files.has_file(q) == old(
                        self,
                    ).files.has_file(q) && (old(self).files.has_file(q) ==> self.files.file_at(q)
                        == old(self).files.file_at(q)) && self.files.has_link(q) == old(
                        self,
                    ).files.has_link(q) by {
                        assert(q != broken@[i as int]@);
                        assert(Self::untouched_outside_pruned(
                            old(self).files,
                            pre.files,
                            broken@,
                        ));
                        assert(pre.files.has_file(q) == old(self).files.has_file(q));
                        assert(old(self).files.has_file(q) ==> pre.files.file_at(q) == old(
                            self,
                        ).files.file_at(q));
                        assert(pre.files.has_link(q) == old(self).files.has_link(q));
                    }
                }
            }
            i += 1;
        }
    }

    /// The URL of a site directory under the configured domain: the
    /// directory name with any domain suffix stripped, then the suffix
    /// appended; a directory that is not a served site is a rejected
    /// request.
    pub fn get_site_url(&self, directory: &str) -> (r: Result<String, ValetError>)
        requires
            self.wf(),
        ensures
            match r {
                Ok(u) => u@ == spec_replace(
                    directory@,
                    "."@ + self.config.state.domain@,
                    Seq::<char>::empty(),
                ) + "."@ + self.config.state.domain@,
                Err(e) => e is ValidationFailure,
            },
    {
        let suffix = concat_str(".", self.config.state.domain.as_str());
        let stripped = replace_all(directory, suffix.as_str(), "");
        let served = self.served_sites();
        let mut found = false;
        let n = served.len();
        let mut i: usize = 0;
        while i < n
            invariant
                n == served@.len(),
                i <= n,
            decreases n - i,
        {
            if str_eq(served[i].as_str(), stripped.as_str()) {
                found = true;
            }
            i += 1;
        }
        if found {
            let ghost st = stripped@;
            let u = concat_str(stripped.as_str(), suffix.as_str());
            proof {
                reveal_strlit("");
                assert(""@ =~= Seq::<char>::empty());
                assert(u@ =~= st + ("."@ + self.config.state.domain@));
            }
            Ok(u)
        } else {
            Err(
                ValetError::ValidationFailure(
                    "the directory is not in the served site list".to_owned(),
                ),
            )
        }
    }

    /// The pinned version of a site, read from its version pin file by
    /// the embedding application: the trimmed file contents, normalized.
    pub fn php_rc_version(&self, site: &str, pin_contents: Option<&str>) -> (r: Option<String>)
        ensures
            match r {
                Some(v) => pin_contents is Some && v@ == spec_normalize(
                    spec_trim(pin_contents.unwrap()@),
                ),
                None => pin_contents is None,
            },
    {
        match pin_contents {
            Option::Some(p) => {
                let t = trim_str(p);
                Some(normalize_version(t.as_str()))
            },
            Option::None => None,
        }
    }

    /// The names of the site directories under every watched path.
    pub fn served_sites(&self) -> (r: Vec<String>)
        requires
            self.wf(),
        ensures
            forall|i: int| 0 <= i < r@.len() ==> (#[trigger] r@[i])@.len() > 0,
    {
        let mut out: Vec<String> = Vec::new();
        let n = self.config.state.paths.len();
        let mut i: usize = 0;
        while i < n
            invariant
                self.wf(),
                n == self.config.state.paths@.len(),
                i <= n,
                forall|k: int| 0 <= k < out@.len() ==> (#[trigger] out@[k])@.len() > 0,
            decreases n - i,
        {
            let parked = self.config.state.paths[i].clone();
            match self.files.scandir(parked.as_str()) {
                Ok(names) => {
                    let m = names.len();
                    let mut j: usize = 0;
                    while j < m
                        invariant
                            self.wf(),
                            m == names@.len(),
                            j <= m,
                            parked@ == self.config.state.paths@[i as int]@,
                            i < n,
                            n == self.config.state.paths@.len(),
                            self.files.listing_sound(parked@, names@),
                            forall|k: int|
                                0 <= k < out@.len() ==> (#[trigger] out@[k])@.len() > 0,
                        decreases m - j,
                    {
                        let child = {
                            let a = concat_str(parked.as_str(), "/");
                            concat_str(a.as_str(), names[j].as_str())
                        };
                        if self.files.is_dir(child.as_str()) {
                            out.push(names[j].clone());
                        }
                        j += 1;
                    }
                },
                Err(_) => {
                },
            }
            i += 1;
        }
        out
    }
}

} // verus!
