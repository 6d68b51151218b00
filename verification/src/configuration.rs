//! The configuration store: a typed record of the durable state (domain,
//! ports, active PHP version, watched paths) and the install routine that
//! lays out the home directory. The embedding application persists the
//! record as the JSON configuration document.

use vstd::prelude::*;

use crate::constants::Valet;
use crate::manager::file_system::ValetFilesystem;
use crate::strutil::{concat_str, ends_with, lacks_char, occurs_at, str_eq};
use crate::stub::{all_digits, value_ok};

verus! {

/// The durable configuration record.
pub struct ConfigState {
    pub domain: String,
    pub port: String,
    pub https_port: String,
    pub php_version: String,
    pub paths: Vec<String>,
}

impl ConfigState {
    /// The values are usable as substitution values: single-line,
    /// nonempty, no upper-case letters; the ports are decimal digits.
    pub open spec fn wf(self) -> bool {
        &&& value_ok(self.domain@)
        &&& lacks_char(self.domain@, ' ')
        &&& value_ok(self.port@)
        &&& all_digits(self.port@)
        &&& value_ok(self.https_port@)
        &&& all_digits(self.https_port@)
        &&& value_ok(self.php_version@)
    }

    /// A watched path is recorded.
    pub open spec fn has_path(self, p: Seq<char>) -> bool {
        exists|i: int| 0 <= i < self.paths@.len() && (#[trigger] self.paths@[i])@ == p
    }
}

/// The configuration component: the record and the installation identity.
pub struct Configuration {
    pub state: ConfigState,
    pub valet: Valet,
}

/// The watched paths with every entry naming `p` removed; the order and
/// multiplicity of the survivors are kept.
pub open spec fn spec_paths_without(paths: Seq<String>, p: Seq<char>) -> Seq<String> {
    paths.filter(|q: String| q@ != p)
}

/// The watched paths that exist as directories; the order and
/// multiplicity of the survivors are kept.
pub open spec fn spec_paths_existing(paths: Seq<String>, files: ValetFilesystem) -> Seq<String> {
    paths.filter(|q: String| files.has_dir(q@))
}

impl Configuration {
    pub open spec fn wf(self) -> bool {
        &&& self.state.wf()
        &&& value_ok(self.valet.home_path@)
        &&& lacks_char(self.valet.home_path@, ' ')
    }

    pub fn new(state: ConfigState, valet: Valet) -> (r: Configuration)
        ensures
            r.state == state,
            r.valet == valet,
    {
        Configuration { state, valet }
    }

    /// The configuration file path.
    pub fn path(&self) -> (r: String)
        ensures
            r@ == self.valet.home_path@ + "/config.json"@,
    {
        concat_str(self.valet.home_path.as_str(), "/config.json")
    }

    /// Lays out the home directory and writes the initial configuration
    /// document when none exists.
    pub fn install(&self, files: &mut ValetFilesystem)
        requires
            old(files).wf(),
        ensures
            final(files).wf(),
            final(files).has_dir(self.valet.home_path@),
            final(files).has_dir(self.valet.home_path@ + "/drivers"@),
            final(files).has_dir(self.valet.home_path@ + "/sites"@),
            final(files).has_dir(self.valet.home_path@ + "/extensions"@),
            final(files).has_dir(self.valet.home_path@ + "/log"@),
            final(files).has_dir(self.valet.home_path@ + "/certificates"@),
            final(files).has_file(self.valet.home_path@ + "/log/nginx-error.log"@),
            final(files).has_file(self.valet.home_path@ + "/config.json"@),
            // a fresh install writes the initial document; an existing
            // document is never overwritten
            !old(files).has_file(self.valet.home_path@ + "/config.json"@) ==> final(files).file_at(self.valet.home_path@ + "/config.json"@)
                == "{\n    \"domain\": \"test\",\n    \"paths\": [],\n    \"port\": \"80\"\n}\n"@,
            old(files).has_file(self.valet.home_path@ + "/config.json"@) ==> final(files).file_at(self.valet.home_path@ + "/config.json"@) == old(files).file_at(
                self.valet.home_path@ + "/config.json"@,
            ),
    {
        self.create_configuration_directory(files);
        self.create_drivers_directory(files);
        self.create_sites_directory(files);
        self.create_extensions_directory(files);
        let ghost s4 = *files;
        self.create_log_directory(files);
        let ghost s5 = *files;
        self.create_certificates_directory(files);
        let ghost m = *files;
        self.write_base_configuration(files);
        proof {
            ValetFilesystem::lemma_same_dirs(*files, m);
            assert(final(files).has_dir(self.valet.home_path@));
            assert(final(files).has_dir(self.valet.home_path@ + "/drivers"@));
            assert(final(files).has_dir(self.valet.home_path@ + "/sites"@));
            assert(final(files).has_dir(self.valet.home_path@ + "/extensions"@));
            assert(final(files).has_dir(self.valet.home_path@ + "/log"@));
            assert(final(files).has_dir(self.valet.home_path@ + "/certificates"@));
            // the configuration document is untouched by the directory
            // layout: only the log placeholder file is created, at a
            // different path
            let cfg = self.valet.home_path@ + "/config.json"@;
            let logf = self.valet.home_path@ + "/log/nginx-error.log"@;
            assert(cfg != logf) by {
                reveal_strlit("/config.json");
                reveal_strlit("/log/nginx-error.log");
                assert(self.valet.home_path@ + ("/config.json"@) =~= cfg);
                assert(self.valet.home_path@ + ("/log/nginx-error.log"@) =~= logf);
                if cfg == logf {
                    crate::strutil::lemma_concat_cancel_left(
                        self.valet.home_path@,
                        "/config.json"@,
                        "/log/nginx-error.log"@,
                    );
                    assert("/config.json"@.len() != "/log/nginx-error.log"@.len());
                }
            }
            ValetFilesystem::lemma_same_file_table(s4, *old(files));
            ValetFilesystem::lemma_same_file_table(m, s5);
            // the placeholder written with the log directory survives the
            // remaining steps, which touch other paths only
            assert(s5.has_file(logf));
            assert(m.has_file(logf));
            assert(final(files).has_file(logf));
        }
    }

    /// Removes the home directory record on a full uninstall.
    pub fn uninstall(&self, files: &mut ValetFilesystem)
        requires
            old(files).wf(),
        ensures
            final(files).wf(),
            !final(files).has_dir(self.valet.home_path@),
    {
        if files.is_dir(self.valet.home_path.as_str()) {
            files.remove(self.valet.home_path.as_str());
        }
    }

    fn create_configuration_directory(&self, files: &mut ValetFilesystem)
        requires
            old(files).wf(),
        ensures
            final(files).wf(),
            forall|q: Seq<char>|
                final(files).has_dir(q) == (old(files).has_dir(q) || q
                    == self.valet.home_path@),
            final(files).files@ == old(files).files@,
    {
        files.ensure_dir_exists(self.valet.home_path.as_str(), self.valet.user.as_str(), 0o755);
    }

    fn create_drivers_directory(&self, files: &mut ValetFilesystem)
        requires
            old(files).wf(),
        ensures
            final(files).wf(),
            forall|q: Seq<char>|
                final(files).has_dir(q) == (old(files).has_dir(q) || q == self.valet.home_path@
                    + "/drivers"@),
            final(files).files@ == old(files).files@,
    {
        let d = concat_str(self.valet.home_path.as_str(), "/drivers");
        files.ensure_dir_exists(d.as_str(), self.valet.user.as_str(), 0o755);
    }

    fn create_sites_directory(&self, files: &mut ValetFilesystem)
        requires
            old(files).wf(),
        ensures
            final(files).wf(),
            forall|q: Seq<char>|
                final(files).has_dir(q) == (old(files).has_dir(q) || q == self.valet.home_path@
                    + "/sites"@),
            final(files).files@ == old(files).files@,
    {
        let d = concat_str(self.valet.home_path.as_str(), "/sites");
        files.ensure_dir_exists(d.as_str(), self.valet.user.as_str(), 0o755);
    }

    fn create_extensions_directory(&self, files: &mut ValetFilesystem)
        requires
            old(files).wf(),
        ensures
            final(files).wf(),
            forall|q: Seq<char>|
                final(files).has_dir(q) == (old(files).has_dir(q) || q == self.valet.home_path@
                    + "/extensions"@),
            final(files).files@ == old(files).files@,
    {
        let d = concat_str(self.valet.home_path.as_str(), "/extensions");
        files.ensure_dir_exists(d.as_str(), self.valet.user.as_str(), 0o755);
    }

    fn create_log_directory(&self, files: &mut ValetFilesystem)
        requires
            old(files).wf(),
        ensures
            final(files).wf(),
            forall|q: Seq<char>|
                final(files).has_dir(q) == (old(files).has_dir(q) || q == self.valet.home_path@
                    + "/log"@),
            final(files).has_file(self.valet.home_path@ + "/log/nginx-error.log"@),
            forall|q: Seq<char>|
                q != self.valet.home_path@ + "/log/nginx-error.log"@ ==> final(files).has_file(q) == old(files).has_file(q) && (old(files).has_file(q) ==> final(files).file_at(q) == old(files).file_at(q)),
    {
        let d = concat_str(self.valet.home_path.as_str(), "/log");
        files.ensure_dir_exists(d.as_str(), self.valet.user.as_str(), 0o755);
        let f = concat_str(d.as_str(), "/nginx-error.log");
        proof {
            reveal_strlit("/log");
            reveal_strlit("/nginx-error.log");
            reveal_strlit("/log/nginx-error.log");
            assert(f@ =~= self.valet.home_path@ + "/log/nginx-error.log"@);
        }
        files.touch(f.as_str());
    }

    fn create_certificates_directory(&self, files: &mut ValetFilesystem)
        requires
            old(files).wf(),
        ensures
            final(files).wf(),
            forall|q: Seq<char>|
                final(files).has_dir(q) == (old(files).has_dir(q) || q == self.valet.home_path@
                    + "/certificates"@),
            final(files).files@ == old(files).files@,
    {
        let d = concat_str(self.valet.home_path.as_str(), "/certificates");
        files.ensure_dir_exists(d.as_str(), self.valet.user.as_str(), 0o755);
    }

    /// Writes the initial configuration document unless one exists.
    fn write_base_configuration(&self, files: &mut ValetFilesystem)
        requires
            old(files).wf(),
        ensures
            final(files).wf(),
            final(files).has_file(self.valet.home_path@ + "/config.json"@),
            !old(files).has_file(self.valet.home_path@ + "/config.json"@) ==> final(files).file_at(self.valet.home_path@ + "/config.json"@)
                == "{\n    \"domain\": \"test\",\n    \"paths\": [],\n    \"port\": \"80\"\n}\n"@,
            old(files).has_file(self.valet.home_path@ + "/config.json"@) ==> final(files).file_at(self.valet.home_path@ + "/config.json"@) == old(files).file_at(
                self.valet.home_path@ + "/config.json"@,
            ),
            forall|q: Seq<char>|
                q != self.valet.home_path@ + "/config.json"@ ==> final(files).has_file(q)
                    == old(files).has_file(q) && (old(files).has_file(q) ==> final(files).file_at(q) == old(files).file_at(q)),
            final(files).dirs@ == old(files).dirs@,
    {
        let p = self.path();
        if !files.is_file(p.as_str()) {
            files.put(
                p.as_str(),
                "{\n    \"domain\": \"test\",\n    \"paths\": [],\n    \"port\": \"80\"\n}\n",
            );
        }
    }

    /// Appends a site name's domain suffix when it is missing.
    pub fn parse_domain(&self, site_name: &str) -> (r: String)
        ensures
            ({
                let suffix = "."@ + self.state.domain@;
                if site_name@.len() >= suffix.len() && occurs_at(
                    site_name@,
                    suffix,
                    site_name@.len() - suffix.len(),
                ) {
                    r@ == site_name@
                } else {
                    r@ == site_name@ + suffix
                }
            }),
    {
        let suffix = concat_str(".", self.state.domain.as_str());
        if ends_with(site_name, suffix.as_str()) {
            site_name.to_owned()
        } else {
            let r = concat_str(site_name, suffix.as_str());
            r
        }
    }

    /// Records a watched path; a duplicate is never inserted.
    pub fn add_path(&mut self, path: &str, prepend: bool)
        ensures
            forall|p: Seq<char>|
                final(self).state.has_path(p) == (old(self).state.has_path(p) || p == path@),
            old(self).state.has_path(path@) ==> final(self).state.paths@ == old(self).state.paths@,
            !old(self).state.has_path(path@) && prepend ==> final(self).state.paths@.len()
                == old(self).state.paths@.len() + 1 && final(self).state.paths@[0]@ == path@
                && (forall|k: int|
                0 <= k < old(self).state.paths@.len() ==> final(self).state.paths@[k + 1] == old(self).state.paths@[k]),
            !old(self).state.has_path(path@) && !prepend ==> final(self).state.paths@ == old(self).state.paths@.push(final(self).state.paths@.last()) && final(self).state.paths@.last()@ == path@,
            final(self).state.domain == old(self).state.domain,
            final(self).state.port == old(self).state.port,
            final(self).state.https_port == old(self).state.https_port,
            final(self).state.php_version == old(self).state.php_version,
            final(self).valet == old(self).valet,
    {
        let n = self.state.paths.len();
        let mut i: usize = 0;
        while i < n
            invariant
                n == self.state.paths@.len(),
                i <= n,
                *self == *old(self),
                forall|j: int| 0 <= j < i ==> (#[trigger] self.state.paths@[j])@ != path@,
            decreases n - i,
        {
            if str_eq(self.state.paths[i].as_str(), path) {
                proof {
                    assert(self.state.paths@[i as int]@ == path@);
                    assert(old(self).state.has_path(path@));
                    assert forall|p: Seq<char>|
                        final(self).state.has_path(p) == (old(self).state.has_path(p) || p
                            == path@) by {}
                }
                return;
            }
            i += 1;
        }
        let m = self.state.paths.len();
        if prepend {
            self.state.paths.insert(0, path.to_owned());
        } else {
            self.state.paths.push(path.to_owned());
        }
        proof {
            if prepend {
                assert(final(self).state.paths@[0]@ == path@);
            } else {
                assert(final(self).state.paths@[m as int]@ == path@);
            }
            assert forall|p: Seq<char>|
                final(self).state.has_path(p) == (old(self).state.has_path(p) || p == path@) by {
                if final(self).state.has_path(p) {
                    let k = choose|k: int|
                        0 <= k < final(self).state.paths@.len() && (#[trigger] final(self).state.paths@[k])@ == p;
                    if prepend {
                        if k > 0 {
                            assert(old(self).state.paths@[k - 1]@ == p);
                        }
                    } else {
                        if k < m {
                            assert(old(self).state.paths@[k]@ == p);
                        }
                    }
                }
                if old(self).state.has_path(p) {
                    let k = choose|k: int|
                        0 <= k < old(self).state.paths@.len() && (#[trigger] old(self).state.paths@[k])@ == p;
                    if prepend {
                        assert(final(self).state.paths@[k + 1]@ == p);
                    } else {
                        assert(final(self).state.paths@[k]@ == p);
                    }
                }
            }
        }
    }

    /// Forgets a watched path.
    pub fn remove_path(&mut self, path: &str)
        ensures
            final(self).state.paths@ == spec_paths_without(old(self).state.paths@, path@),
            forall|p: Seq<char>|
                final(self).state.has_path(p) == (old(self).state.has_path(p) && p != path@),
            final(self).state.domain == old(self).state.domain,
            final(self).state.port == old(self).state.port,
            final(self).state.https_port == old(self).state.https_port,
            final(self).state.php_version == old(self).state.php_version,
            final(self).valet == old(self).valet,
    {
        let mut kept: Vec<String> = Vec::new();
        proof {
            reveal(Seq::filter);
            assert(kept@ =~= spec_paths_without(self.state.paths@.take(0), path@));
        }
        let n = self.state.paths.len();
        let mut i: usize = 0;
        while i < n
            invariant
                n == self.state.paths@.len(),
                i <= n,
                *self == *old(self),
                kept@ == spec_paths_without(old(self).state.paths@.take(i as int), path@),
                forall|k: int|
                    0 <= k < kept@.len() ==> (#[trigger] kept@[k])@ != path@,
                forall|k: int|
                    0 <= k < kept@.len() ==> exists|j: int|
                        0 <= j < i && (#[trigger] kept@[k])@ == old(self).state.paths@[j]@,
                forall|j: int|
                    0 <= j < i && (#[trigger] old(self).state.paths@[j])@ != path@
                        ==> exists|k: int|
                        0 <= k < kept@.len() && #[trigger] kept@[k]@
                            == old(self).state.paths@[j]@,
            decreases n - i,
        {
            let ghost pre = kept@;
            let keep_it = !str_eq(self.state.paths[i].as_str(), path);
            if keep_it {
                kept.push(self.state.paths[i].clone());
            }
            proof {
                reveal(Seq::filter);
                let s = old(self).state.paths@;
                assert(s.take(i + 1).drop_last() =~= s.take(i as int));
                assert(s.take(i + 1).last() == s[i as int]);
                assert(kept@ =~= spec_paths_without(s.take(i + 1), path@));
                assert forall|j: int|
                    0 <= j <= i && (#[trigger] old(self).state.paths@[j])@ != path@
                        implies exists|k: int|
                    0 <= k < kept@.len() && kept@[k]@ == old(self).state.paths@[j]@ by {
                    if j < i {
                        let k = choose|k: int|
                            0 <= k < pre.len() && (#[trigger] pre[k])@
                                == old(self).state.paths@[j]@;
                        assert(kept@[k]@ == old(self).state.paths@[j]@);
                    } else {
                        assert(kept@[pre.len() as int]@ == old(self).state.paths@[j]@);
                    }
                }
            }
            i += 1;
        }
        self.state.paths = kept;
        proof {
            assert(old(self).state.paths@.take(n as int) =~= old(self).state.paths@);
            assert forall|p: Seq<char>|
                final(self).state.has_path(p) == (old(self).state.has_path(p) && p != path@) by {
                if final(self).state.has_path(p) {
                    let k = choose|k: int|
                        0 <= k < final(self).state.paths@.len() && (#[trigger] final(self).state.paths@[k])@ == p;
                }
                if old(self).state.has_path(p) && p != path@ {
                    let j = choose|j: int|
                        0 <= j < old(self).state.paths@.len() && (#[trigger] old(self).state.paths@[j])@ == p;
                }
            }
        }
    }

    /// Keeps only the watched paths that exist as directories.
    pub fn prune(&mut self, files: &ValetFilesystem)
        ensures
            final(self).state.paths@ == spec_paths_existing(old(self).state.paths@, *files),
            forall|p: Seq<char>|
                final(self).state.has_path(p) == (old(self).state.has_path(p) && files.has_dir(
                    p,
                )),
            final(self).state.domain == old(self).state.domain,
            final(self).state.port == old(self).state.port,
            final(self).state.https_port == old(self).state.https_port,
            final(self).state.php_version == old(self).state.php_version,
            final(self).valet == old(self).valet,
    {
        let mut kept: Vec<String> = Vec::new();
        proof {
            reveal(Seq::filter);
            assert(kept@ =~= spec_paths_existing(self.state.paths@.take(0), *files));
        }
        let n = self.state.paths.len();
        let mut i: usize = 0;
        while i < n
            invariant
                n == self.state.paths@.len(),
                i <= n,
                *self == *old(self),
                kept@ == spec_paths_existing(old(self).state.paths@.take(i as int), *files),
                forall|k: int| 0 <= k < kept@.len() ==> files.has_dir((#[trigger] kept@[k])@),
                forall|k: int|
                    0 <= k < kept@.len() ==> exists|j: int|
                        0 <= j < i && (#[trigger] kept@[k])@ == old(self).state.paths@[j]@,
                forall|j: int|
                    0 <= j < i && files.has_dir((#[trigger] old(self).state.paths@[j])@)
                        ==> exists|k: int|
                        0 <= k < kept@.len() && #[trigger] kept@[k]@
                            == old(self).state.paths@[j]@,
            decreases n - i,
        {
            let ghost pre = kept@;
            let keep_it = files.is_dir(self.state.paths[i].as_str());
            if keep_it {
                kept.push(self.state.paths[i].clone());
            }
            proof {
                reveal(Seq::filter);
                let s = old(self).state.paths@;
                assert(s.take(i + 1).drop_last() =~= s.take(i as int));
                assert(s.take(i + 1).last() == s[i as int]);
                assert(kept@ =~= spec_paths_existing(s.take(i + 1), *files));
                assert forall|j: int|
                    0 <= j <= i && files.has_dir((#[trigger] old(self).state.paths@[j])@)
                        implies exists|k: int|
                    0 <= k < kept@.len() && kept@[k]@ == old(self).state.paths@[j]@ by {
                    if j < i {
                        let k = choose|k: int|
                            0 <= k < pre.len() && (#[trigger] pre[k])@
                                == old(self).state.paths@[j]@;
                        assert(kept@[k]@ == old(self).state.paths@[j]@);
                    } else {
                        assert(kept@[pre.len() as int]@ == old(self).state.paths@[j]@);
                    }
                }
            }
            i += 1;
        }
        self.state.paths = kept;
        proof {
            assert(old(self).state.paths@.take(n as int) =~= old(self).state.paths@);
            assert forall|p: Seq<char>|
                final(self).state.has_path(p) == (old(self).state.has_path(p) && files.has_dir(
                    p,
                )) by {
                if final(self).state.has_path(p) {
                    let k = choose|k: int|
                        0 <= k < final(self).state.paths@.len() && (#[trigger] final(self).state.paths@[k])@ == p;
                }
                if old(self).state.has_path(p) && files.has_dir(p) {
                    let j = choose|j: int|
                        0 <= j < old(self).state.paths@.len() && (#[trigger] old(self).state.paths@[j])@ == p;
                }
            }
        }
    }
}

} // verus!
