//! The PHP runtime manager: version normalization, deterministic socket
//! identifiers, per-version pool configuration, the bookkeeping of which
//! versions sites actually use, and the version switch that keeps socket
//! bindings and server blocks consistent.

use vstd::prelude::*;
use vstd::string::StrSliceExecFns;
use vstd::string::StringExecFns;

use crate::configuration::Configuration;
use crate::error::ValetError;
use crate::manager::apt::Apt;
use crate::manager::command::ValetCommandLine;
use crate::manager::file_system::ValetFilesystem;
use crate::manager::service_manager::{service_cmd, ValetServiceManager};
use crate::strutil::{concat_str, contains_seq, contains_str, find_from, first_occ, lacks_char,
    lemma_occ_skip, matches_at, occurs_at, replace_all, spec_replace, str_eq, starts_with};
use crate::stub::value_ok;
use crate::nginx::Nginx;

verus! {

/// Decimal digit.
pub open spec fn spec_is_digit(c: char) -> bool {
    48 <= (c as u32) && (c as u32) <= 57
}

/// The version text with any `php`, `php@` or `php-` prefix stripped.
pub open spec fn spec_version_body(s: Seq<char>) -> Seq<char> {
    if s.len() >= 4 && (s.subrange(0, 4) == "php@"@ || s.subrange(0, 4) == "php-"@) {
        s.skip(4)
    } else if s.len() >= 3 && s.subrange(0, 3) == "php"@ {
        s.skip(3)
    } else {
        s
    }
}

/// The `MAJOR.MINOR` form matched by the single-digit-major,
/// single-digit-minor pattern, or empty when the text does not match.
pub open spec fn spec_pattern_version(s: Seq<char>) -> Seq<char> {
    let b = spec_version_body(s);
    if b.len() == 2 && spec_is_digit(b[0]) && spec_is_digit(b[1]) {
        seq![b[0], '.', b[1]]
    } else if b.len() == 3 && spec_is_digit(b[0]) && spec_is_digit(b[2]) {
        seq![b[0], '.', b[2]]
    } else {
        Seq::<char>::empty()
    }
}

/// A version the manager knows: one it can isolate a site to.
pub open spec fn is_known_version(v: Seq<char>) -> bool {
    ||| v == "7.0"@
    ||| v == "7.1"@
    ||| v == "7.2"@
    ||| v == "7.3"@
    ||| v == "7.4"@
    ||| v == "8.0"@
    ||| v == "8.1"@
    ||| v == "8.2"@
    ||| v == "8.3"@
}

/// The normalized form of a version request: the matched `MAJOR.MINOR`
/// when it is a known version, empty otherwise.
pub open spec fn spec_normalize(s: Seq<char>) -> Seq<char> {
    if is_known_version(spec_pattern_version(s)) {
        spec_pattern_version(s)
    } else {
        Seq::<char>::empty()
    }
}

/// The digits of `s`, in order.
pub open spec fn spec_digits_of(s: Seq<char>) -> Seq<char>
    decreases s.len(),
{
    if s.len() == 0 {
        Seq::<char>::empty()
    } else if spec_is_digit(s[0]) {
        seq![s[0]] + spec_digits_of(s.skip(1))
    } else {
        spec_digits_of(s.skip(1))
    }
}

/// The deterministic socket file name of a version: `valet<digits>.sock`.
/// The common extensions, in installation order.
pub open spec fn spec_extension_names() -> Seq<Seq<char>> {
    seq![
        "cli"@,
        "mysql"@,
        "gd"@,
        "zip"@,
        "xml"@,
        "curl"@,
        "mbstring"@,
        "pgsql"@,
        "intl"@,
        "posix"@,
    ]
}

/// The first `i` common extensions with `p` prefixed to each, joined by
/// single spaces.
pub open spec fn spec_extension_prefix_join(p: Seq<char>, i: int) -> Seq<char>
    decreases i,
{
    if i <= 0 {
        Seq::empty()
    } else if i == 1 {
        p + spec_extension_names()[0]
    } else {
        spec_extension_prefix_join(p, i - 1) + " "@ + p + spec_extension_names()[i - 1]
    }
}

/// The whole extension set with `p` prefixed to each name, as one
/// package-manager argument.
pub open spec fn spec_extension_list(p: Seq<char>) -> Seq<char> {
    spec_extension_prefix_join(p, 10)
}

/// The joined extension argument is longer than any single package name
/// of the same prefix length, so the two never collide.
pub proof fn lemma_extension_list_len(p: Seq<char>)
    ensures
        spec_extension_list(p).len() == 10 * p.len() + 51,
{
    reveal_strlit("cli");
    reveal_strlit("mysql");
    reveal_strlit("gd");
    reveal_strlit("zip");
    reveal_strlit("xml");
    reveal_strlit("curl");
    reveal_strlit("mbstring");
    reveal_strlit("pgsql");
    reveal_strlit("intl");
    reveal_strlit("posix");
    reveal_strlit(" ");
    assert(spec_extension_prefix_join(p, 1).len() == p.len() + 3);
    assert(spec_extension_prefix_join(p, 2).len() == 2 * p.len() + 9);
    assert(spec_extension_prefix_join(p, 3).len() == 3 * p.len() + 12);
    assert(spec_extension_prefix_join(p, 4).len() == 4 * p.len() + 16);
    assert(spec_extension_prefix_join(p, 5).len() == 5 * p.len() + 20);
    assert(spec_extension_prefix_join(p, 6).len() == 6 * p.len() + 25);
    assert(spec_extension_prefix_join(p, 7).len() == 7 * p.len() + 34);
    assert(spec_extension_prefix_join(p, 8).len() == 8 * p.len() + 40);
    assert(spec_extension_prefix_join(p, 9).len() == 9 * p.len() + 45);
    assert(spec_extension_prefix_join(p, 10).len() == 10 * p.len() + 51);
}

pub open spec fn spec_socket_name(v: Seq<char>) -> Seq<char> {
    "valet"@ + spec_digits_of(v) + ".sock"@
}

/// A known version is already in its normalized form.
pub proof fn lemma_normalize_idempotent(v: Seq<char>)
    requires
        is_known_version(v),
    ensures
        spec_normalize(v) == v,
{
    reveal_strlit("7.0");
    reveal_strlit("7.1");
    reveal_strlit("7.2");
    reveal_strlit("7.3");
    reveal_strlit("7.4");
    reveal_strlit("8.0");
    reveal_strlit("8.1");
    reveal_strlit("8.2");
    reveal_strlit("8.3");
    reveal_strlit("php@");
    reveal_strlit("php-");
    reveal_strlit("php");
    assert(v.len() == 3);
    assert(spec_version_body(v) == v) by {
        if v.subrange(0, 3) == "php"@ {
            assert(v.subrange(0, 3)[0] == v[0]);
        }
    }
    assert(spec_pattern_version(v) =~= v);
}

/// Keeps only the digits of `s`.
pub fn digits_of(s: &str) -> (r: String)
    ensures
        r@ == spec_digits_of(s@),
{
    let n = s.unicode_len();
    let mut out = String::new();
    let mut i: usize = 0;
    proof {
        assert(s@.skip(0) =~= s@);
        assert(Seq::<char>::empty() + spec_digits_of(s@) =~= spec_digits_of(s@));
    }
    while i < n
        invariant
            n == s@.len(),
            i <= n,
            out@ + spec_digits_of(s@.skip(i as int)) == spec_digits_of(s@),
        decreases n - i,
    {
        let ghost rest = s@.skip(i as int);
        let piece = s.substring_char(i, i + 1);
        let c = s.get_char(i);
        if (c as u32) >= 48 && (c as u32) <= 57 {
            out.append(piece);
        }
        proof {
            assert(piece@ =~= seq![rest[0]]);
            assert(rest.skip(1) =~= s@.skip(i + 1));
        }
        i += 1;
    }
    proof {
        assert(s@.skip(n as int) =~= Seq::<char>::empty());
        assert(out@ + Seq::<char>::empty() =~= out@);
    }
    out
}

/// Builds the deterministic socket file name of a version.
pub fn socket_name(version: &str) -> (r: String)
    ensures
        r@ == spec_socket_name(version@),
{
    let d = digits_of(version);
    let a = concat_str("valet", d.as_str());
    concat_str(a.as_str(), ".sock")
}

/// Normalizes a version request to `MAJOR.MINOR`; empty when the text
/// does not match the pattern or names an unknown version.
pub fn normalize_version(version: &str) -> (r: String)
    ensures
        r@ == spec_normalize(version@),
{
    proof {
        reveal_strlit("php@");
        reveal_strlit("php-");
        reveal_strlit("php");
        reveal_strlit(".");
    }
    let n = version.unicode_len();
    let body_start: usize = if n >= 4 && (matches_at(version, 0, "php@") || matches_at(
        version,
        0,
        "php-",
    )) {
        4
    } else if n >= 3 && matches_at(version, 0, "php") {
        3
    } else {
        0
    };
    proof {
        assert(version@.subrange(0, body_start as int) == version@.subrange(
            0,
            body_start as int,
        ));
        if body_start == 4 {
            assert(spec_version_body(version@) == version@.skip(4));
        } else if body_start == 3 {
            if version@.len() >= 4 {
                assert(version@.subrange(0, 4) != "php@"@ && version@.subrange(0, 4) != "php-"@);
            }
            assert(spec_version_body(version@) == version@.skip(3));
        } else {
            if version@.len() >= 4 {
                assert(version@.subrange(0, 4) != "php@"@ && version@.subrange(0, 4) != "php-"@);
            }
            if version@.len() >= 3 {
                assert(version@.subrange(0, 3) != "php"@);
            }
            assert(spec_version_body(version@) == version@);
        }
        assert(version@.skip(body_start as int) == spec_version_body(version@));
    }
    let ghost body = spec_version_body(version@);
    let blen = n - body_start;
    let candidate: String;
    if blen == 2 {
        let c0 = version.get_char(body_start);
        let c1 = version.get_char(body_start + 1);
        if (c0 as u32) >= 48 && (c0 as u32) <= 57 && (c1 as u32) >= 48 && (c1 as u32) <= 57 {
            let d0 = version.substring_char(body_start, body_start + 1);
            let d1 = version.substring_char(body_start + 1, body_start + 2);
            let a = concat_str(d0, ".");
            candidate = concat_str(a.as_str(), d1);
            proof {
                assert(body[0] == version@[body_start as int]);
                assert(body[1] == version@[body_start + 1]);
                assert(candidate@ =~= spec_pattern_version(version@));
            }
        } else {
            proof {
                assert(spec_pattern_version(version@) == Seq::<char>::empty());
            }
            return String::new();
        }
    } else if blen == 3 {
        let c0 = version.get_char(body_start);
        let c2 = version.get_char(body_start + 2);
        if (c0 as u32) >= 48 && (c0 as u32) <= 57 && (c2 as u32) >= 48 && (c2 as u32) <= 57 {
            let d0 = version.substring_char(body_start, body_start + 1);
            let d2 = version.substring_char(body_start + 2, body_start + 3);
            let a = concat_str(d0, ".");
            candidate = concat_str(a.as_str(), d2);
            proof {
                assert(body[0] == version@[body_start as int]);
                assert(body[2] == version@[body_start + 2]);
                assert(candidate@ =~= spec_pattern_version(version@));
            }
        } else {
            proof {
                assert(spec_pattern_version(version@) == Seq::<char>::empty());
            }
            return String::new();
        }
    } else {
        proof {
            assert(spec_pattern_version(version@) == Seq::<char>::empty());
        }
        return String::new();
    }
    if str_eq(candidate.as_str(), "7.0") || str_eq(candidate.as_str(), "7.1") || str_eq(
        candidate.as_str(),
        "7.2",
    ) || str_eq(candidate.as_str(), "7.3") || str_eq(candidate.as_str(), "7.4") || str_eq(
        candidate.as_str(),
        "8.0",
    ) || str_eq(candidate.as_str(), "8.1") || str_eq(candidate.as_str(), "8.2") || str_eq(
        candidate.as_str(),
        "8.3",
    ) {
        candidate
    } else {
        String::new()
    }
}

/// A specific generated site file uses a version's socket identifier.
pub open spec fn site_uses(fs: ValetFilesystem, home: Seq<char>, n: Seq<char>, v: Seq<char>) -> bool {
    &&& fs.has_file(nginx_site_path(home, n))
    &&& !contains_seq(n, "/"@)
    &&& n.len() > 0
    &&& n[0] != '.'
    &&& !is_isolated_content(fs.file_at(nginx_site_path(home, n)))
    &&& contains_seq(fs.file_at(nginx_site_path(home, n)), spec_socket_name(v))
}

/// The file of a generated site, by name, under the home directory.
pub open spec fn nginx_site_path(home: Seq<char>, n: Seq<char>) -> Seq<char> {
    home + "/nginx/"@ + n
}

/// A generated file of an isolated site: it carries the pinned-version
/// marker and its socket reference is not rewritten on a switch.
pub open spec fn is_isolated_content(c: Seq<char>) -> bool {
    contains_seq(c, "# ISOLATED_PHP_VERSION"@)
}

/// Some non-hidden, non-isolated generated site file references the
/// version's socket identifier.
pub open spec fn version_in_use(fs: ValetFilesystem, home: Seq<char>, v: Seq<char>) -> bool {
    exists|n: Seq<char>|
        {
            &&& #[trigger] fs.has_file(nginx_site_path(home, n))
            &&& !contains_seq(n, "/"@)
            &&& n.len() > 0
            &&& n[0] != '.'
            &&& !is_isolated_content(fs.file_at(nginx_site_path(home, n)))
            &&& contains_seq(fs.file_at(nginx_site_path(home, n)), spec_socket_name(v))
        }
}

/// The PHP runtime manager.
pub struct PhpFpm {
    pub config: Configuration,
    pub pm: Apt,
    pub sm: ValetServiceManager,
    pub cli: ValetCommandLine,
    pub files: ValetFilesystem,
    pub nginx: Nginx,
}

impl PhpFpm {
    pub open spec fn wf(self) -> bool {
        &&& self.files.wf()
        &&& self.config.wf()
        &&& self.nginx.wf()
    }

    pub open spec fn home(self) -> Seq<char> {
        self.config.valet.home_path@
    }

    /// The active version.
    pub open spec fn current(self) -> Seq<char> {
        self.config.state.php_version@
    }

    pub fn new(
        config: Configuration,
        pm: Apt,
        sm: ValetServiceManager,
        cli: ValetCommandLine,
        files: ValetFilesystem,
        nginx: Nginx,
    ) -> (r: PhpFpm)
        ensures
            r.config == config,
            r.pm == pm,
            r.sm == sm,
            r.cli == cli,
            r.files == files,
            r.nginx == nginx,
    {
        PhpFpm { config, pm, sm, cli, files, nginx }
    }

    /// The active version, as recorded in the configuration.
    pub fn get_current_version(&self) -> (r: String)
        ensures
            r@ == self.current(),
    {
        self.config.state.php_version.clone()
    }

    /// Normalizes a version request; empty when it cannot be satisfied.
    pub fn normalize_php_version(&self, version: &str) -> (r: String)
        ensures
            r@ == spec_normalize(version@),
    {
        normalize_version(version)
    }

    /// The deterministic socket file name of a version, or of the active
    /// version when none is given.
    pub fn socket_file_name(&self, v: Option<&str>) -> (r: String)
        ensures
            r@ == spec_socket_name(
                match v {
                    Option::Some(s) => s@,
                    Option::None => self.current(),
                },
            ),
    {
        match v {
            Option::Some(s) => socket_name(s),
            Option::None => socket_name(self.config.state.php_version.as_str()),
        }
    }

    /// The socket file path of a version, under the home directory.
    pub fn fpm_socket_file(&self, version: &str) -> (r: String)
        ensures
            r@ == self.home() + "/"@ + spec_socket_name(version@),
    {
        let s = socket_name(version);
        let a = concat_str(self.config.valet.home_path.as_str(), "/");
        concat_str(a.as_str(), s.as_str())
    }

    /// The service of a version, or of the active version.
    pub fn service_name(&self, version: Option<&str>) -> (r: String)
        ensures
            r@ == "php"@ + (match version {
                Option::Some(s) => s@,
                Option::None => self.current(),
            }) + "-fpm"@,
    {
        match version {
            Option::Some(s) => self.pm.get_php_fpm_name(s),
            Option::None => self.pm.get_php_fpm_name(self.config.state.php_version.as_str()),
        }
    }

    /// The executable of a version, or the plain binary for the default.
    pub fn get_php_executable_path(&self, version: Option<&str>) -> (r: String)
        ensures
            match version {
                Option::Some(s) => r@ == "php"@ + spec_normalize(s@),
                Option::None => r@ == "php"@,
            },
    {
        match version {
            Option::Some(s) => {
                let nv = normalize_version(s);
                concat_str("php", nv.as_str())
            },
            Option::None => {
                proof {
                    reveal_strlit("php");
                }
                "php".to_owned()
            },
        }
    }

    /// A version may serve as the system default.
    pub fn validate_version(&self, version: &str) -> (r: bool)
        ensures
            r == (version@ == "8.2"@ || version@ == "8.3"@),
    {
        str_eq(version, "8.2") || str_eq(version, "8.3")
    }

    /// A version may be isolated to; anything else is a rejected request.
    pub fn validate_isolation_version(&self, version: &str) -> (r: Result<(), ValetError>)
        ensures
            r is Ok <==> is_known_version(version@),
            r is Err ==> r->Err_0 is ValidationFailure,
    {
        if str_eq(version, "7.0") || str_eq(version, "7.1") || str_eq(version, "7.2") || str_eq(
            version,
            "7.3",
        ) || str_eq(version, "7.4") || str_eq(version, "8.0") || str_eq(version, "8.1") || str_eq(
            version,
            "8.2",
        ) || str_eq(version, "8.3") {
            Ok(())
        } else {
            Err(ValetError::ValidationFailure(version.to_owned()))
        }
    }

    /// Stages a restart of a version's service.
    pub fn restart(&mut self, version: Option<&str>)
        ensures
            final(self).files == old(self).files,
            final(self).config == old(self).config,
            final(self).pm == old(self).pm,
            final(self).nginx == old(self).nginx,
            final(self).cli == old(self).cli,
            final(self).sm.cli.log() == old(self).sm.cli.log().push(
                (false, service_cmd("restart"@, "php"@ + (match version {
                    Option::Some(s) => s@,
                    Option::None => old(self).current(),
                }) + "-fpm"@)),
            ),
            final(self).sm.enabled@ == old(self).sm.enabled@,
    {
        let svc = self.service_name(version);
        self.sm.restart(vec![svc.as_str()]);
        proof {
            assert(final(self).sm.cli.log() =~= old(self).sm.cli.log().push(
                (false, service_cmd("restart"@, svc@)),
            ));
        }
    }

    /// Stages a stop of a version's service.
    pub fn stop(&mut self, version: Option<&str>)
        ensures
            final(self).files == old(self).files,
            final(self).config == old(self).config,
            final(self).pm == old(self).pm,
            final(self).nginx == old(self).nginx,
            final(self).cli == old(self).cli,
            final(self).sm.cli.log() == old(self).sm.cli.log().push(
                (false, service_cmd("stop"@, "php"@ + (match version {
                    Option::Some(s) => s@,
                    Option::None => old(self).current(),
                }) + "-fpm"@)),
            ),
            final(self).sm.enabled@ == old(self).sm.enabled@,
    {
        let svc = self.service_name(version);
        self.sm.stop(vec![svc.as_str()]);
        proof {
            assert(final(self).sm.cli.log() =~= old(self).sm.cli.log().push(
                (false, service_cmd("stop"@, svc@)),
            ));
        }
    }

    /// Stages a status query of a version's service.
    pub fn status(&mut self, version: Option<&str>)
        ensures
            final(self).files == old(self).files,
            final(self).config == old(self).config,
            final(self).pm == old(self).pm,
            final(self).nginx == old(self).nginx,
            final(self).cli == old(self).cli,
            final(self).sm.cli.log() == old(self).sm.cli.log().push(
                (false, "service "@ + "php"@ + (match version {
                    Option::Some(s) => s@,
                    Option::None => old(self).current(),
                }) + "-fpm"@ + " status"@),
            ),
            final(self).sm.enabled@ == old(self).sm.enabled@,
    {
        let svc = self.service_name(version);
        self.sm.print_status(svc.as_str());
        proof {
            assert("service "@ + svc@ + " status"@ =~= "service "@ + "php"@ + (match version {
                Option::Some(s) => s@,
                Option::None => old(self).current(),
            }) + "-fpm"@ + " status"@);
            assert(final(self).sm.cli.log() =~= old(self).sm.cli.log().push(
                (false, "service "@ + svc@ + " status"@),
            ));
        }
    }

    /// The versions any site actually uses: for every non-isolated
    /// generated file that references a known version's socket
    /// identifier, that version; and always the active version, which
    /// must never be stopped while it is the default.
    pub fn utilized_php_versions(&self) -> (r: Vec<String>)
        requires
            self.wf(),
        ensures
            exists|i: int| 0 <= i < r@.len() && (#[trigger] r@[i])@ == self.current(),
            forall|i: int|
                0 <= i < r@.len() ==> (#[trigger] r@[i])@ == self.current() || (is_known_version(
                    r@[i]@,
                ) && version_in_use(self.files, self.home(), r@[i]@)),
            forall|v: Seq<char>|
                is_known_version(v) && #[trigger] version_in_use(self.files, self.home(), v)
                    ==> exists|i: int| 0 <= i < r@.len() && (#[trigger] r@[i])@ == v,
            forall|i: int, j: int|
                0 <= i < j < r@.len() ==> (#[trigger] r@[i])@ != (#[trigger] r@[j])@,
    {
        proof {
            reveal_strlit("/nginx");
            reveal_strlit("/");
            reveal_strlit("/nginx/");
            reveal_strlit("# ISOLATED_PHP_VERSION");
        }
        let known: Vec<&'static str> = crate::constants::isolation_supported_php_versions();
        let mut out: Vec<String> = Vec::new();
        let dir = concat_str(self.config.valet.home_path.as_str(), "/nginx");
        let names = match self.files.scandir(dir.as_str()) {
            Ok(v) => v,
            Err(_) => Vec::new(),
        };
        let n = names.len();
        let mut i: usize = 0;
        while i < n
            invariant
                self.wf(),
                n == names@.len(),
                i <= n,
                dir@ == self.home() + "/nginx"@,
                self.files.listing_sound(dir@, names@),
                self.files.listing_complete(dir@, names@),
                known@.len() == 9,
                forall|k: int| 0 <= k < 9 ==> is_known_version((#[trigger] known@[k])@),
                forall|v: Seq<char>| is_known_version(v) ==> exists|k: int|
                    0 <= k < known@.len() && (#[trigger] known@[k])@ == v,
                forall|k: int|
                    0 <= k < out@.len() ==> is_known_version((#[trigger] out@[k])@)
                        && version_in_use(self.files, self.home(), out@[k]@),
                forall|k: int, l: int|
                    0 <= k < l < out@.len() ==> (#[trigger] out@[k])@ != (#[trigger] out@[l])@,
                forall|k: int, l: int|
                    0 <= k < i && 0 <= l < 9 ==> ((#[trigger] site_uses(
                        self.files,
                        self.home(),
                        (#[trigger] names@[k])@,
                        known@[l]@,
                    )) ==> exists|j: int|
                        0 <= j < out@.len() && (#[trigger] out@[j])@ == known@[l]@),
            decreases n - i,
        {
            proof {
                reveal_strlit("/nginx");
                reveal_strlit("/");
                reveal_strlit("/nginx/");
                reveal_strlit("# ISOLATED_PHP_VERSION");
                reveal_strlit(".");
            }
            let ghost pre_out = out@;
            let name = &names[i];
            let path = {
                let a = concat_str(dir.as_str(), "/");
                concat_str(a.as_str(), name.as_str())
            };
            proof {
                assert(path@ =~= nginx_site_path(self.home(), names@[i as int]@));
            }
            let skip_file = starts_with(name.as_str(), ".");
            proof {
                if names@[i as int]@[0] == '.' {
                    assert(names@[i as int]@.subrange(0, 1) =~= "."@);
                }
                if crate::strutil::occurs_at(names@[i as int]@, "."@, 0) {
                    assert(names@[i as int]@.subrange(0, 1)[0] == names@[i as int]@[0]);
                }
            }
            let content: Option<String> = if skip_file {
                None
            } else {
                match self.files.get(path.as_str()) {
                    Ok(c) => Some(c),
                    Err(_) => None,
                }
            };
            match content {
                Some(c) => {
                    if !contains_str(c.as_str(), "# ISOLATED_PHP_VERSION") {
                        let m = known.len();
                        let mut l: usize = 0;
                        while l < m
                            invariant
                                self.wf(),
                                m == 9,
                                known@.len() == 9,
                                l <= m,
                                i < n,
                                n == names@.len(),
                                forall|k: int|
                                    0 <= k < 9 ==> is_known_version((#[trigger] known@[k])@),
                                names@[i as int]@.len() > 0,
                                names@[i as int]@[0] != '.',
                                !contains_seq(names@[i as int]@, "/"@),
                                self.files.has_file(
                                    nginx_site_path(self.home(), names@[i as int]@),
                                ),
                                c@ == self.files.file_at(
                                    nginx_site_path(self.home(), names@[i as int]@),
                                ),
                                !is_isolated_content(c@),
                                forall|k: int|
                                    0 <= k < out@.len() ==> is_known_version(
                                        (#[trigger] out@[k])@,
                                    ) && version_in_use(self.files, self.home(), out@[k]@),
                                forall|k: int, l: int|
                                    0 <= k < l < out@.len() ==> (#[trigger] out@[k])@ != (
                                    #[trigger] out@[l])@,
                                forall|j: int| 0 <= j < pre_out.len() ==> out@[j] == pre_out[j],
                                out@.len() >= pre_out.len(),
                                forall|l2: int|
                                    0 <= l2 < l ==> (contains_seq(
                                        c@,
                                        spec_socket_name((#[trigger] known@[l2])@),
                                    ) ==> exists|j: int|
                                        0 <= j < out@.len() && (#[trigger] out@[j])@
                                            == known@[l2]@),
                            decreases m - l,
                        {
                            let ghost pre_in = out@;
                            let v = known[l];
                            let sock = socket_name(v);
                            if contains_str(c.as_str(), sock.as_str()) && !contains_version(
                                &out,
                                v,
                            ) {
                                let ghost before = out@;
                                out.push(v.to_owned());
                                proof {
                                    assert(out@[out@.len() - 1]@ == known@[l as int]@);
                                    assert(site_uses(
                                        self.files,
                                        self.home(),
                                        names@[i as int]@,
                                        known@[l as int]@,
                                    ));
                                    assert(version_in_use(
                                        self.files,
                                        self.home(),
                                        known@[l as int]@,
                                    ));
                                }
                            } else if contains_str(c.as_str(), sock.as_str()) {
                                proof {
                                    assert(exists|j: int|
                                        0 <= j < out@.len() && (#[trigger] out@[j])@
                                            == known@[l as int]@);
                                }
                            }
                            proof {
                                assert forall|l2: int|
                                    0 <= l2 < l + 1 implies (contains_seq(
                                    c@,
                                    spec_socket_name((#[trigger] known@[l2])@),
                                ) ==> exists|j: int|
                                    0 <= j < out@.len() && (#[trigger] out@[j])@
                                        == known@[l2]@) by {
                                    if l2 < l && contains_seq(
                                        c@,
                                        spec_socket_name(known@[l2]@),
                                    ) {
                                        let j = choose|j: int|
                                            0 <= j < pre_in.len() && (#[trigger] pre_in[j])@
                                                == known@[l2]@;
                                        assert(out@[j]@ == known@[l2]@);
                                    }
                                }
                            }
                            l += 1;
                        }
                    }
                },
                None => {
                },
            }
            proof {
                assert forall|k: int, l: int|
                    0 <= k < i + 1 && 0 <= l < 9 implies ((#[trigger] site_uses(
                    self.files,
                    self.home(),
                    (#[trigger] names@[k])@,
                    known@[l]@,
                )) ==> exists|j: int|
                    0 <= j < out@.len() && (#[trigger] out@[j])@ == known@[l]@) by {
                    if k < i {
                        if site_uses(self.files, self.home(), names@[k]@, known@[l]@) {
                            let j = choose|j: int|
                                0 <= j < pre_out.len() && (#[trigger] pre_out[j])@ == known@[l]@;
                            assert(out@[j]@ == known@[l]@);
                        }
                    }
                }
            }
            i += 1;
        }
        let ghost loop_out = out@;
        let cur = self.get_current_version();
        if !contains_version(&out, cur.as_str()) {
            out.push(cur);
            proof {
                assert(out@[out@.len() - 1]@ == self.current());
            }
        }
        proof {
            assert forall|v: Seq<char>|
                is_known_version(v) && #[trigger] version_in_use(self.files, self.home(), v)
                    implies exists|i2: int| 0 <= i2 < out@.len() && (#[trigger] out@[i2])@
                == v by {
                let nm = choose|nm: Seq<char>|
                    {
                        &&& #[trigger] self.files.has_file(nginx_site_path(self.home(), nm))
                        &&& !contains_seq(nm, "/"@)
                        &&& nm.len() > 0
                        &&& nm[0] != '.'
                        &&& !is_isolated_content(
                            self.files.file_at(nginx_site_path(self.home(), nm)),
                        )
                        &&& contains_seq(
                            self.files.file_at(nginx_site_path(self.home(), nm)),
                            spec_socket_name(v),
                        )
                    };
                assert(self.files.has_entry(dir@ + "/"@ + nm)) by {
                    assert(nginx_site_path(self.home(), nm) =~= dir@ + "/"@ + nm);
                }
                assert(nm != ".keep"@) by {
                    reveal_strlit(".keep");
                    assert(".keep"@[0] == '.');
                }
                let k = choose|k: int| 0 <= k < names@.len() && (#[trigger] names@[k])@ == nm;
                let lx = choose|lx: int|
                    0 <= lx < known@.len() && (#[trigger] known@[lx])@ == v;
                assert(site_uses(self.files, self.home(), names@[k]@, known@[lx]@));
                let j = choose|j: int|
                    0 <= j < loop_out.len() && (#[trigger] loop_out[j])@ == known@[lx]@;
                assert(out@[j]@ == v);
            }
        }
        out
    }
}

/// `v` is listed in `out`.
fn contains_version(out: &Vec<String>, v: &str) -> (r: bool)
    ensures
        r == exists|i: int| 0 <= i < out@.len() && (#[trigger] out@[i])@ == v@,
{
    let n = out.len();
    let mut i: usize = 0;
    while i < n
        invariant
            n == out@.len(),
            i <= n,
            forall|j: int| 0 <= j < i ==> (#[trigger] out@[j])@ != v@,
        decreases n - i,
    {
        if str_eq(out[i].as_str(), v) {
            return true;
        }
        i += 1;
    }
    false
}


impl PhpFpm {
    /// The per-version pool configuration content.
    pub open spec fn spec_fpm_conf(self, version: Seq<char>) -> Seq<char> {
        "[valet]\nuser = "@ + self.config.valet.user@ + "\ngroup = "@ + self.config.valet.group@
            + "\nlisten = "@ + self.home() + "/"@ + spec_socket_name(version)
            + "\nlisten.mode = 0660\n"@
    }

    /// The PHP-FPM configuration directory of a version: the first of
    /// the known distribution layouts that exists in the image.
    pub open spec fn spec_first_fpm_dir(self, v: Seq<char>) -> Option<Seq<char>> {
        if self.files.has_dir("/etc/php/"@ + v + "/fpm/pool.d"@) {
            Option::Some("/etc/php/"@ + v + "/fpm/pool.d"@)
        } else if self.files.has_dir("/etc/php"@ + v + "/fpm/pool.d"@) {
            Option::Some("/etc/php"@ + v + "/fpm/pool.d"@)
        } else if self.files.has_dir("/etc/php"@ + v + "/php-fpm.d"@) {
            Option::Some("/etc/php"@ + v + "/php-fpm.d"@)
        } else if self.files.has_dir("/etc/php"@ + spec_digits_of(v) + "/php-fpm.d"@) {
            Option::Some("/etc/php"@ + spec_digits_of(v) + "/php-fpm.d"@)
        } else if self.files.has_dir("/etc/php7/fpm/php-fpm.d"@) {
            Option::Some("/etc/php7/fpm/php-fpm.d"@)
        } else if self.files.has_dir("/etc/php8/fpm/php-fpm.d"@) {
            Option::Some("/etc/php8/fpm/php-fpm.d"@)
        } else if self.files.has_dir("/etc/php-fpm.d"@) {
            Option::Some("/etc/php-fpm.d"@)
        } else if self.files.has_dir("/etc/php/php-fpm.d"@) {
            Option::Some("/etc/php/php-fpm.d"@)
        } else {
            Option::None
        }
    }

    /// The PHP-FPM configuration directory of a version: the first of the
    /// known distribution layouts that exists; none is a fatal failure of
    /// the host.
    pub fn fpm_config_path(&self, version: Option<&str>) -> (r: Result<String, ValetError>)
        requires
            self.files.wf(),
        ensures
            ({
                let v = match version {
                    Option::Some(s) => s@,
                    Option::None => self.current(),
                };
                match r {
                    Ok(p) => self.spec_first_fpm_dir(v) == Option::Some(p@) && self.files.has_dir(
                        p@,
                    ),
                    Err(e) => self.spec_first_fpm_dir(v) is None && e is ValidationFailure,
                }
            }),
    {
        let v: String = match version {
            Option::Some(s) => s.to_owned(),
            Option::None => self.config.state.php_version.clone(),
        };
        let vn = {
            let d = crate::php_fpm::digits_of(v.as_str());
            d
        };
        let c1 = {
            let a = concat_str("/etc/php/", v.as_str());
            concat_str(a.as_str(), "/fpm/pool.d")
        };
        let c2 = {
            let a = concat_str("/etc/php", v.as_str());
            concat_str(a.as_str(), "/fpm/pool.d")
        };
        let c3 = {
            let a = concat_str("/etc/php", v.as_str());
            concat_str(a.as_str(), "/php-fpm.d")
        };
        let c4 = {
            let a = concat_str("/etc/php", vn.as_str());
            concat_str(a.as_str(), "/php-fpm.d")
        };
        if self.files.is_dir(c1.as_str()) {
            return Ok(c1);
        }
        if self.files.is_dir(c2.as_str()) {
            return Ok(c2);
        }
        if self.files.is_dir(c3.as_str()) {
            return Ok(c3);
        }
        if self.files.is_dir(c4.as_str()) {
            return Ok(c4);
        }
        if self.files.is_dir("/etc/php7/fpm/php-fpm.d") {
            return Ok("/etc/php7/fpm/php-fpm.d".to_owned());
        }
        if self.files.is_dir("/etc/php8/fpm/php-fpm.d") {
            return Ok("/etc/php8/fpm/php-fpm.d".to_owned());
        }
        if self.files.is_dir("/etc/php-fpm.d") {
            return Ok("/etc/php-fpm.d".to_owned());
        }
        if self.files.is_dir("/etc/php/php-fpm.d") {
            return Ok("/etc/php/php-fpm.d".to_owned());
        }
        Err(
            ValetError::ValidationFailure(
                "unable to determine the PHP-FPM configuration folder".to_owned(),
            ),
        )
    }

    /// Writes the pool configuration of a version into its configuration
    /// directory.
    pub fn install_configuration(&mut self, version: &str) -> (r: Result<(), ValetError>)
        requires
            old(self).wf(),
        ensures
            final(self).wf(),
            final(self).config == old(self).config,
            final(self).pm == old(self).pm,
            final(self).nginx == old(self).nginx,
            final(self).cli == old(self).cli,
            final(self).sm == old(self).sm,
            match r {
                Ok(()) => ({
                    let d = old(self).spec_first_fpm_dir(version@).unwrap();
                    &&& old(self).spec_first_fpm_dir(version@) is Some
                    &&& final(self).files.has_file(d + "/valet.conf"@)
                    &&& final(self).files.file_at(d + "/valet.conf"@) == old(self).spec_fpm_conf(
                        version@,
                    )
                    &&& forall|q: Seq<char>|
                        q != d + "/valet.conf"@ ==> final(self).files.has_file(q) == old(self).files.has_file(q) && (old(self).files.has_file(q) ==> final(self).files.file_at(q) == old(self).files.file_at(q))
                }),
                Err(e) => old(self).spec_first_fpm_dir(version@) is None && e
                    is ValidationFailure && *final(self) == *old(self),
            },
    {
        let dir = match self.fpm_config_path(Some(version)) {
            Ok(d) => d,
            Err(e) => {
                return Err(e);
            },
        };
        let f1 = concat_str("[valet]\nuser = ", self.config.valet.user.as_str());
        let f2 = concat_str(f1.as_str(), "\ngroup = ");
        let f3 = concat_str(f2.as_str(), self.config.valet.group.as_str());
        let f4 = concat_str(f3.as_str(), "\nlisten = ");
        let sock = self.fpm_socket_file(version);
        let f5 = concat_str(f4.as_str(), sock.as_str());
        let contents = concat_str(f5.as_str(), "\nlisten.mode = 0660\n");
        proof {
            assert(contents@ =~= self.spec_fpm_conf(version@));
        }
        let path = {
            let a = concat_str(dir.as_str(), "/valet.conf");
            a
        };
        self.files.put(path.as_str(), contents.as_str());
        proof {
            assert(final(self).files.has_dir(dir@));
            assert(final(self).files.file_at(dir@ + "/valet.conf"@) == old(self).spec_fpm_conf(
                version@,
            ));
        }
        Ok(())
    }

    /// Stages the installation of the common extensions of a version.
    pub fn install_extensions(&mut self, version: &str)
        ensures
            final(self).files == old(self).files,
            final(self).config == old(self).config,
            final(self).nginx == old(self).nginx,
            final(self).cli == old(self).cli,
            final(self).sm == old(self).sm,
            forall|p: Seq<char>|
                old(self).pm.is_installed(p) ==> final(self).pm.is_installed(p),
            // one install command covers the whole extension set, staged
            // unless an earlier call already staged it
            ({
                let pkgs = spec_extension_list("php"@ + version@ + "-"@);
                &&& (!old(self).pm.is_installed(pkgs) ==> final(self).pm.cli.log() == old(
                    self,
                ).pm.cli.log().push((false, "apt-get install -y "@ + pkgs)))
                &&& (old(self).pm.is_installed(pkgs) ==> final(self).pm == old(self).pm)
            }),
    {
        let prefix = self.pm.get_php_extension_prefix(version);
        let exts = crate::constants::common_extensions();
        let mut joined = String::new();
        let n = exts.len();
        let mut i: usize = 0;
        while i < n
            invariant
                n == exts@.len(),
                i <= n,
                *self == *old(self),
                prefix@ == "php"@ + version@ + "-"@,
                n == 10,
                forall|k: int| 0 <= k < 10 ==> (#[trigger] exts@[k])@ == spec_extension_names()[k],
                joined@ == spec_extension_prefix_join(prefix@, i as int),
            decreases n - i,
        {
            if i > 0 {
                joined.append(" ");
            }
            joined.append(prefix.as_str());
            joined.append(exts[i]);
            i += 1;
            proof {
                assert(joined@ =~= spec_extension_prefix_join(prefix@, i as int));
            }
        }
        proof {
            assert(joined@ =~= spec_extension_list(prefix@));
            assert(spec_extension_list(prefix@) == spec_extension_list("php"@ + version@ + "-"@));
        }
        self.pm.ensure_installed(joined.as_str());
    }

    /// Installs a version: the runtime package, optionally the common
    /// extensions, the service, and the pool configuration; an
    /// unrecognized version request is a no-op.
    pub fn install(&mut self, version: Option<&str>, install_ext: bool) -> (r: Result<
        (),
        ValetError,
    >)
        requires
            old(self).wf(),
        ensures
            final(self).wf(),
            final(self).config == old(self).config,
            final(self).nginx == old(self).nginx,
            final(self).cli == old(self).cli,
            ({
                let nv = spec_normalize(
                    match version {
                        Option::Some(s) => s@,
                        Option::None => old(self).current(),
                    },
                );
                &&& (nv.len() == 0 ==> r is Ok && *final(self) == *old(self))
                &&& (nv.len() > 0 ==> (r is Err <==> old(self).spec_first_fpm_dir(nv)
                    is None))
                &&& (r is Err ==> r->Err_0 is ValidationFailure)
                &&& (r is Ok && nv.len() > 0 ==> {
                    let d = old(self).spec_first_fpm_dir(nv).unwrap();
                    let svc = "php"@ + nv + "-fpm"@;
                    &&& final(self).pm.is_installed(svc)
                    &&& final(self).files.has_file(d + "/valet.conf"@)
                    &&& final(self).files.file_at(d + "/valet.conf"@) == old(self).spec_fpm_conf(nv)
                    // a fresh runtime is enabled at boot; the service
                    // restart is staged in every case
                    &&& (old(self).pm.is_installed(svc) ==> final(self).sm.cli.log() == old(
                        self,
                    ).sm.cli.log().push((false, service_cmd("restart"@, svc))))
                    &&& (!old(self).pm.is_installed(svc) ==> final(self).sm.cli.log() == old(
                        self,
                    ).sm.cli.log().push(
                        (false, "sudo update-rc.d "@ + svc + " defaults"@),
                    ).push((false, service_cmd("restart"@, svc))))
                })
                // the generated site files are never touched, so which
                // versions are in use is unchanged
                &&& (forall|nm: Seq<char>|
                    #[trigger] final(self).files.has_file(
                        nginx_site_path(old(self).home(), nm),
                    ) == old(self).files.has_file(nginx_site_path(old(self).home(), nm)) && (
                    old(self).files.has_file(nginx_site_path(old(self).home(), nm))
                        ==> final(self).files.file_at(nginx_site_path(old(self).home(), nm))
                        == old(self).files.file_at(nginx_site_path(old(self).home(), nm))))
                // an installed runtime gets no package or extension work;
                // a missing one is installed, its extensions exactly when
                // asked
                &&& (nv.len() > 0 && old(self).pm.is_installed("php"@ + nv + "-fpm"@)
                    ==> final(self).pm == old(self).pm)
                &&& (r is Ok && nv.len() > 0 && !old(self).pm.is_installed("php"@ + nv + "-fpm"@)
                    ==> ({
                    let base = old(self).pm.cli.log().push(
                        (false, "apt-get install -y "@ + ("php"@ + nv + "-fpm"@)),
                    );
                    let pkgs = spec_extension_list("php"@ + nv + "-"@);
                    &&& (install_ext && !old(self).pm.is_installed(pkgs) ==> final(self).pm.cli.log() == base.push((false, "apt-get install -y "@ + pkgs)))
                    &&& (install_ext && old(self).pm.is_installed(pkgs) ==> final(self).pm.cli.log() == base)
                    &&& (!install_ext ==> final(self).pm.cli.log() == base)
                }))
            }),
    {
        let v: String = match version {
            Option::Some(s) => s.to_owned(),
            Option::None => self.config.state.php_version.clone(),
        };
        let nv = normalize_version(v.as_str());
        if nv.as_str().unicode_len() == 0 {
            return Ok(());
        }
        let package_name = self.pm.get_php_fpm_name(nv.as_str());
        let was_installed = self.pm.installed(package_name.as_str());
        proof {
            // the joined extension argument is longer than the runtime
            // package name, so installing one never marks the other
            reveal_strlit("php");
            reveal_strlit("-fpm");
            reveal_strlit("-");
            lemma_extension_list_len("php"@ + nv@ + "-"@);
            assert(spec_extension_list("php"@ + nv@ + "-"@) != "php"@ + nv@ + "-fpm"@) by {
                assert(spec_extension_list("php"@ + nv@ + "-"@).len() == 10 * (nv@.len() + 4)
                    + 51);
                assert(("php"@ + nv@ + "-fpm"@).len() == nv@.len() + 7);
            }
        }
        self.pm.ensure_installed(package_name.as_str());
        if !was_installed {
            if install_ext {
                self.install_extensions(nv.as_str());
            }
            let svc = self.service_name(Some(nv.as_str()));
            self.sm.enable(svc.as_str());
        }
        self.files.ensure_dir_exists("/var/log", self.config.valet.user.as_str(), 0o775);
        let ghost mid = *self;
        proof {
            // creating the log directory cannot make a pool directory
            // appear: the candidate paths are all longer than its path
            reveal_strlit("/var/log");
            reveal_strlit("/etc/php/");
            reveal_strlit("/etc/php");
            reveal_strlit("/fpm/pool.d");
            reveal_strlit("/php-fpm.d");
            reveal_strlit("/etc/php7/fpm/php-fpm.d");
            reveal_strlit("/etc/php8/fpm/php-fpm.d");
            reveal_strlit("/etc/php-fpm.d");
            reveal_strlit("/etc/php/php-fpm.d");
            assert(mid.spec_first_fpm_dir(nv@) == old(self).spec_first_fpm_dir(nv@)) by {
                assert(("/etc/php/"@ + nv@ + "/fpm/pool.d"@).len() != "/var/log"@.len());
                assert(("/etc/php"@ + nv@ + "/fpm/pool.d"@).len() != "/var/log"@.len());
                assert(("/etc/php"@ + nv@ + "/php-fpm.d"@).len() != "/var/log"@.len());
                assert(("/etc/php"@ + spec_digits_of(nv@) + "/php-fpm.d"@).len()
                    != "/var/log"@.len());
                assert("/etc/php7/fpm/php-fpm.d"@.len() != "/var/log"@.len());
                assert("/etc/php8/fpm/php-fpm.d"@.len() != "/var/log"@.len());
                assert("/etc/php-fpm.d"@.len() != "/var/log"@.len());
                assert("/etc/php/php-fpm.d"@.len() != "/var/log"@.len());
            }
        }
        match self.install_configuration(nv.as_str()) {
            Ok(()) => {
                proof {
                    assert(mid.spec_first_fpm_dir(nv@) is Some);
                    assert(old(self).spec_first_fpm_dir(nv@) is Some);
                }
            },
            Err(e) => {
                proof {
                    assert(mid.spec_first_fpm_dir(nv@) is None);
                    assert(old(self).spec_first_fpm_dir(nv@) is None);
                    ValetFilesystem::lemma_same_file_table(self.files, old(self).files);
                }
                return Err(e);
            },
        }
        let ghost at_restart = *self;
        self.restart(Some(nv.as_str()));
        proof {
            // the staged service commands, by case
            if was_installed {
                assert(final(self).sm.cli.log() =~= old(self).sm.cli.log().push(
                    (false, service_cmd("restart"@, "php"@ + nv@ + "-fpm"@)),
                ));
            } else {
                assert(final(self).sm.cli.log() =~= old(self).sm.cli.log().push(
                    (false, "sudo update-rc.d "@ + ("php"@ + nv@ + "-fpm"@) + " defaults"@),
                ).push((false, service_cmd("restart"@, "php"@ + nv@ + "-fpm"@))));
            }
            // the one written file is no generated site file
            assert(is_known_version(nv@));
            old(self).lemma_pool_conf_lacks_g(nv@);
            assert(mid.files.files@ == old(self).files.files@);
            ValetFilesystem::lemma_same_file_table(mid.files, old(self).files);
            assert forall|nm: Seq<char>|
                #[trigger] final(self).files.has_file(nginx_site_path(old(self).home(), nm))
                    == old(self).files.has_file(nginx_site_path(old(self).home(), nm)) && (old(
                self,
            ).files.has_file(nginx_site_path(old(self).home(), nm)) ==> final(self).files.file_at(nginx_site_path(old(self).home(), nm)) == old(self).files.file_at(
                nginx_site_path(old(self).home(), nm),
            )) by {
                Self::lemma_pool_conf_not_site(
                    old(self).spec_pool_conf_path(nv@),
                    old(self).home(),
                    nm,
                );
                let q = nginx_site_path(old(self).home(), nm);
                assert(mid.files.has_file(q) == old(self).files.has_file(q));
                assert(old(self).files.has_file(q) ==> mid.files.file_at(q) == old(
                    self,
                ).files.file_at(q));
                assert(q != mid.spec_first_fpm_dir(nv@).unwrap() + "/valet.conf"@);
            }
        }
        Ok(())
    }

    /// Removes the pool configuration of a version and stages a stop of
    /// its service; an unconfigured or unrecognized version is a no-op.
    pub fn uninstall(&mut self, version: Option<&str>) -> (r: Result<(), ValetError>)
        requires
            old(self).wf(),
        ensures
            final(self).wf(),
            final(self).config == old(self).config,
            final(self).pm == old(self).pm,
            final(self).nginx == old(self).nginx,
            ({
                let nv = spec_normalize(
                    match version {
                        Option::Some(s) => s@,
                        Option::None => old(self).current(),
                    },
                );
                &&& (nv.len() == 0 ==> r is Ok && *final(self) == *old(self))
                &&& (nv.len() > 0 ==> (r is Err <==> old(self).spec_first_fpm_dir(nv)
                    is None))
                &&& (r is Err ==> r->Err_0 is ValidationFailure && *final(self) == *old(self))
                &&& (r is Ok && nv.len() > 0 ==> {
                    let d = old(self).spec_first_fpm_dir(nv).unwrap();
                    &&& !final(self).files.has_file(d + "/valet.conf"@)
                    &&& (old(self).files.has_file(d + "/valet.conf"@) ==> final(self).sm.cli.log() == old(self).sm.cli.log().push(
                        (false, service_cmd("stop"@, "php"@ + nv + "-fpm"@)),
                    ))
                    &&& (!old(self).files.has_file(d + "/valet.conf"@) ==> *final(self)
                        == *old(self))
                    // no other version's files are touched
                    &&& (forall|q: Seq<char>|
                        q != d + "/valet.conf"@ ==> final(self).files.has_file(q) == old(self).files.has_file(q)
                            && (old(self).files.has_file(q) ==> final(self).files.file_at(q) == old(self).files.file_at(q)))
                    &&& final(self).cli == old(self).cli
                })
            }),
    {
        let v: String = match version {
            Option::Some(s) => s.to_owned(),
            Option::None => self.config.state.php_version.clone(),
        };
        let nv = normalize_version(v.as_str());
        if nv.as_str().unicode_len() == 0 {
            return Ok(());
        }
        let dir = match self.fpm_config_path(Some(nv.as_str())) {
            Ok(d) => d,
            Err(e) => {
                return Err(e);
            },
        };
        let path = concat_str(dir.as_str(), "/valet.conf");
        if self.files.is_file(path.as_str()) {
            self.files.unlink(path.as_str());
            self.stop(Some(nv.as_str()));
        }
        Ok(())
    }

    /// Stages a stop of a version's service unless some site, or the
    /// system default, still uses it: a version in use is never stopped.
    pub fn stop_if_unused(&mut self, version: &str)
        requires
            old(self).wf(),
        ensures
            final(self).wf(),
            final(self).sm.enabled@ == old(self).sm.enabled@,
            final(self).files == old(self).files,
            final(self).config == old(self).config,
            final(self).pm == old(self).pm,
            final(self).nginx == old(self).nginx,
            final(self).cli == old(self).cli,
            ({
                let nv = spec_normalize(version@);
                (nv == old(self).current() || (is_known_version(nv) && version_in_use(
                    old(self).files,
                    old(self).home(),
                    nv,
                ))) ==> *final(self) == *old(self)
            }),
            ({
                let nv = spec_normalize(version@);
                !(nv == old(self).current() || (is_known_version(nv) && version_in_use(
                    old(self).files,
                    old(self).home(),
                    nv,
                ))) ==> final(self).sm.cli.log() == old(self).sm.cli.log().push(
                    (false, service_cmd("stop"@, "php"@ + nv + "-fpm"@)),
                )
            }),
    {
        let nv = normalize_version(version);
        let used = self.utilized_php_versions();
        if !contains_version(&used, nv.as_str()) {
            self.stop(Some(nv.as_str()));
        } else {
            proof {
                // a listed version is the active one or in use
                let i = choose|i: int| 0 <= i < used@.len() && (#[trigger] used@[i])@ == nv@;
            }
        }
    }

    /// Outside the first `i` listed site paths, `a` agrees with `b`.
    pub open spec fn files_untouched_outside(
        a: ValetFilesystem,
        b: ValetFilesystem,
        home: Seq<char>,
        names: Seq<String>,
        i: int,
    ) -> bool {
        forall|q: Seq<char>|
            (forall|k: int|
                0 <= k < i ==> q != nginx_site_path(home, (#[trigger] names[k])@))
                ==> #[trigger] a.has_file(q) == b.has_file(q) && (b.has_file(q) ==> a.file_at(q)
                == b.file_at(q))
    }

    /// Outside the rewired sites' generated files, `now` agrees with the
    /// file table of `pre`: isolated and other files stay byte-identical.
    pub open spec fn untouched_outside_rewired(pre: PhpFpm, now: ValetFilesystem) -> bool {
        forall|q: Seq<char>|
            (forall|nm: Seq<char>|
                #[trigger] pre.spec_site_rewired(nm) ==> q != nginx_site_path(pre.home(), nm))
                ==> #[trigger] now.has_file(q) == pre.files.has_file(q) && (pre.files.has_file(q)
                ==> now.file_at(q) == pre.files.file_at(q))
    }

    /// A generated site file whose socket reference the switch rewrites:
    /// a non-hidden site file that is not isolated and holds a socket
    /// reference.
    pub open spec fn spec_site_rewired(self, nm: Seq<char>) -> bool {
        &&& self.files.has_file(nginx_site_path(self.home(), nm))
        &&& !contains_seq(nm, "/"@)
        &&& nm.len() > 0
        &&& nm[0] != '.'
        &&& !is_isolated_content(self.files.file_at(nginx_site_path(self.home(), nm)))
        &&& spec_has_socket_ref(self.files.file_at(nginx_site_path(self.home(), nm)))
    }

    /// Rewrites the socket reference of every non-isolated generated site
    /// file to the given version's socket, and reinstalls the default
    /// server block to match. Isolated sites are pinned and left alone.
    #[verifier::rlimit(100)]
    pub fn update_nginx_config_files(&mut self, version: &str)
        requires
            old(self).wf(),
        ensures
            final(self).wf(),
            final(self).config == old(self).config,
            final(self).pm == old(self).pm,
            final(self).cli == old(self).cli,
            final(self).sm == old(self).sm,
            final(self).nginx.configuration == old(self).nginx.configuration,
            // the default server block is rewired to the version's socket
            final(self).nginx.files.has_file("/etc/nginx/sites-available/valet.conf"@),
            final(self).nginx.files.file_at("/etc/nginx/sites-available/valet.conf"@) == old(
                self,
            ).nginx.spec_server_block(spec_socket_name(version@)),
            // every qualifying site file is rewired to the new socket path
            forall|nm: Seq<char>|
                #[trigger] old(self).spec_site_rewired(nm) ==> final(self).files.has_file(
                    nginx_site_path(old(self).home(), nm),
                ) && final(self).files.file_at(nginx_site_path(old(self).home(), nm))
                    == spec_rewrite_socket(
                    old(self).files.file_at(nginx_site_path(old(self).home(), nm)),
                    old(self).home() + "/"@ + spec_socket_name(version@),
                ),
            // no file outside the rewired site files is modified
            Self::untouched_outside_rewired(*old(self), final(self).files),
    {
        proof {
            reveal_strlit("/nginx");
            reveal_strlit("/");
            reveal_strlit("/nginx/");
            reveal_strlit(".");
            reveal_strlit(".keep");
            reveal_strlit("# ISOLATED_PHP_VERSION");
        }
        let dir = concat_str(self.config.valet.home_path.as_str(), "/nginx");
        let listing = match self.files.scandir(dir.as_str()) {
            Ok(v) => v,
            Err(_) => Vec::new(),
        };
        // the non-hidden names, each once
        let mut names: Vec<String> = Vec::new();
        let ln = listing.len();
        let mut j: usize = 0;
        while j < ln
            invariant
                *self == *old(self),
                self.wf(),
                ln == listing@.len(),
                j <= ln,
                dir@ == self.home() + "/nginx"@,
                self.files.listing_sound(dir@, listing@),
                forall|k: int|
                    0 <= k < names@.len() ==> (#[trigger] names@[k])@.len() > 0
                        && names@[k]@[0] != '.' && !contains_seq(names@[k]@, "/"@),
                forall|k: int, l: int|
                    0 <= k < l < names@.len() ==> (#[trigger] names@[k])@ != (
                    #[trigger] names@[l])@,
                forall|k: int|
                    0 <= k < j ==> ((#[trigger] listing@[k])@.len() > 0 && listing@[k]@[0]
                        != '.' ==> exists|l: int|
                        0 <= l < names@.len() && (#[trigger] names@[l])@ == listing@[k]@),
            decreases ln - j,
        {
            proof {
                reveal_strlit(".");
                reveal_strlit("/");
                reveal_strlit("/nginx");
                reveal_strlit("/nginx/");
            }
            let ghost pre_names = names@;
            let nm = &listing[j];
            if !starts_with(nm.as_str(), ".") && !contains_version(&names, nm.as_str()) {
                proof {
                    assert(listing@[j as int]@.len() > 0);
                    assert(listing@[j as int]@[0] != '.') by {
                        if listing@[j as int]@[0] == '.' {
                            assert(listing@[j as int]@.subrange(0, 1) =~= "."@);
                        }
                    }
                }
                names.push(nm.clone());
                proof {
                    assert(names@[names@.len() - 1]@ == listing@[j as int]@);
                }
            } else {
                proof {
                    if crate::strutil::occurs_at(listing@[j as int]@, "."@, 0) {
                        assert(listing@[j as int]@.subrange(0, 1)[0] == listing@[j as int]@[0]);
                    }
                }
            }
            proof {
                assert forall|k: int|
                    0 <= k < j + 1 implies ((#[trigger] listing@[k])@.len() > 0
                    && listing@[k]@[0] != '.' ==> exists|l: int|
                    0 <= l < names@.len() && (#[trigger] names@[l])@ == listing@[k]@) by {
                    if k < j && listing@[k]@.len() > 0 && listing@[k]@[0] != '.' {
                        let l = choose|l: int|
                            0 <= l < pre_names.len() && (#[trigger] pre_names[l])@
                                == listing@[k]@;
                        assert(names@[l]@ == listing@[k]@);
                    }
                }
            }
            j += 1;
        }
        // rewrite each site file once
        let sock_path = self.fpm_socket_file(version);
        let ghost sp = old(self).home() + "/"@ + spec_socket_name(version@);
        let n = names.len();
        let mut i: usize = 0;
        while i < n
            invariant
                self.wf(),
                self.config == old(self).config,
                self.pm == old(self).pm,
                self.cli == old(self).cli,
                self.sm == old(self).sm,
                self.nginx == old(self).nginx,
                n == names@.len(),
                i <= n,
                dir@ == self.home() + "/nginx"@,
                sock_path@ == sp,
                forall|k: int|
                    0 <= k < names@.len() ==> (#[trigger] names@[k])@.len() > 0
                        && names@[k]@[0] != '.' && !contains_seq(names@[k]@, "/"@),
                forall|k: int, l: int|
                    0 <= k < l < names@.len() ==> (#[trigger] names@[k])@ != (
                    #[trigger] names@[l])@,
                forall|nm: Seq<char>|
                    #[trigger] old(self).spec_site_rewired(nm) && (exists|k: int|
                        0 <= k < i && (#[trigger] names@[k])@ == nm) ==> self.files.has_file(
                        nginx_site_path(old(self).home(), nm),
                    ) && self.files.file_at(nginx_site_path(old(self).home(), nm))
                        == spec_rewrite_socket(
                        old(self).files.file_at(nginx_site_path(old(self).home(), nm)),
                        sp,
                    ),
                Self::files_untouched_outside(
                    self.files,
                    old(self).files,
                    old(self).home(),
                    names@,
                    i as int,
                ),
                Self::untouched_outside_rewired(*old(self), self.files),
            decreases n - i,
        {
            proof {
                reveal_strlit(".");
                reveal_strlit("/");
                reveal_strlit("/nginx");
                reveal_strlit("/nginx/");
                reveal_strlit("# ISOLATED_PHP_VERSION");
            }
            let ghost pre = *self;
            let path = {
                let a = concat_str(dir.as_str(), "/");
                concat_str(a.as_str(), names[i].as_str())
            };
            proof {
                assert(path@ =~= nginx_site_path(old(self).home(), names@[i as int]@));
                // this iteration reads the untouched initial file
                assert forall|k: int|
                    0 <= k < i implies path@ != nginx_site_path(
                    old(self).home(),
                    (#[trigger] names@[k])@,
                ) by {
                    if path@ == nginx_site_path(old(self).home(), names@[k]@) {
                        crate::strutil::lemma_concat_cancel_left(
                            old(self).home() + "/nginx/"@,
                            names@[i as int]@,
                            names@[k]@,
                        );
                    }
                }
                assert(Self::files_untouched_outside(
                    pre.files,
                    old(self).files,
                    old(self).home(),
                    names@,
                    i as int,
                ));
                assert(pre.files.has_file(path@) == old(self).files.has_file(path@));
                assert(old(self).files.has_file(path@) ==> pre.files.file_at(path@) == old(
                    self,
                ).files.file_at(path@));
            }
            let mut wrote: bool = false;
            match self.files.get(path.as_str()) {
                Ok(content) => {
                    if !contains_str(content.as_str(), "# ISOLATED_PHP_VERSION") {
                        match rewrite_socket_reference(content.as_str(), sock_path.as_str()) {
                            Some(updated) => {
                                proof {
                                    assert(old(self).spec_site_rewired(names@[i as int]@));
                                }
                                self.files.put(path.as_str(), updated.as_str());
                                wrote = true;
                            },
                            None => {
                            },
                        }
                    }
                },
                Err(_) => {
                },
            }
            proof {
                assert(Self::untouched_outside_rewired(*old(self), self.files)) by {
                    assert forall|q: Seq<char>|
                        (forall|nm: Seq<char>|
                            #[trigger] old(self).spec_site_rewired(nm) ==> q != nginx_site_path(
                                old(self).home(),
                                nm,
                            )) implies #[trigger] self.files.has_file(q) == old(
                        self,
                    ).files.has_file(q) && (old(self).files.has_file(q) ==> self.files.file_at(q)
                        == old(self).files.file_at(q)) by {
                        assert(Self::untouched_outside_rewired(*old(self), pre.files));
                        assert(pre.files.has_file(q) == old(self).files.has_file(q));
                        assert(old(self).files.has_file(q) ==> pre.files.file_at(q) == old(
                            self,
                        ).files.file_at(q));
                        if wrote {
                            assert(old(self).spec_site_rewired(names@[i as int]@));
                            assert(q != path@);
                        }
                    }
                }
            }
            proof {
                assert forall|nm: Seq<char>|
                    #[trigger] old(self).spec_site_rewired(nm) && (exists|k: int|
                        0 <= k < i + 1 && (#[trigger] names@[k])@ == nm)
                        implies self.files.has_file(nginx_site_path(old(self).home(), nm))
                    && self.files.file_at(nginx_site_path(old(self).home(), nm))
                    == spec_rewrite_socket(
                    old(self).files.file_at(nginx_site_path(old(self).home(), nm)),
                    sp,
                ) by {
                    if nginx_site_path(old(self).home(), nm) == nginx_site_path(
                        old(self).home(),
                        names@[i as int]@,
                    ) {
                        crate::strutil::lemma_concat_cancel_left(
                            old(self).home() + "/nginx/"@,
                            nm,
                            names@[i as int]@,
                        );
                    }
                    if nm == names@[i as int]@ {
                        // the fresh file was read from the untouched state
                        assert forall|k: int|
                            0 <= k < i implies path@ != nginx_site_path(
                            old(self).home(),
                            (#[trigger] names@[k])@,
                        ) by {
                            if path@ == nginx_site_path(old(self).home(), names@[k]@) {
                                crate::strutil::lemma_concat_cancel_left(
                                    old(self).home() + "/nginx/"@,
                                    names@[i as int]@,
                                    names@[k]@,
                                );
                            }
                        }
                        assert(Self::files_untouched_outside(
                            pre.files,
                            old(self).files,
                            old(self).home(),
                            names@,
                            i as int,
                        ));
                        assert(pre.files.has_file(path@) == old(self).files.has_file(path@));
                        assert(old(self).files.has_file(path@) ==> pre.files.file_at(path@)
                            == old(self).files.file_at(path@));
                    }
                }
                assert(Self::files_untouched_outside(
                    self.files,
                    old(self).files,
                    old(self).home(),
                    names@,
                    i + 1,
                )) by {
                    assert forall|q: Seq<char>|
                        (forall|k: int|
                            0 <= k < i + 1 ==> q != nginx_site_path(
                                old(self).home(),
                                (#[trigger] names@[k])@,
                            )) implies #[trigger] self.files.has_file(q) == old(
                        self,
                    ).files.has_file(q) && (old(self).files.has_file(q)
                        ==> self.files.file_at(q) == old(self).files.file_at(q)) by {
                        assert(forall|k: int|
                            0 <= k < i ==> q != nginx_site_path(
                                old(self).home(),
                                (#[trigger] names@[k])@,
                            ));
                        assert(Self::files_untouched_outside(
                            pre.files,
                            old(self).files,
                            old(self).home(),
                            names@,
                            i as int,
                        ));
                        assert(pre.files.has_file(q) == old(self).files.has_file(q));
                        assert(old(self).files.has_file(q) ==> pre.files.file_at(q) == old(
                            self,
                        ).files.file_at(q));
                        assert(q != path@);
                        assert(self.files.has_file(q) == pre.files.has_file(q));
                        assert(pre.files.has_file(q) ==> self.files.file_at(q)
                            == pre.files.file_at(q));
                    }
                }
            }
            i += 1;
        }
        let sock = self.socket_file_name(Some(version));
        self.nginx.install_server(Some(sock.as_str()));
        proof {
            assert(self.config == old(self).config);
            assert forall|nm: Seq<char>|
                #[trigger] old(self).spec_site_rewired(nm) implies final(self).files.has_file(
                nginx_site_path(old(self).home(), nm),
            ) && final(self).files.file_at(nginx_site_path(old(self).home(), nm))
                == spec_rewrite_socket(
                old(self).files.file_at(nginx_site_path(old(self).home(), nm)),
                sp,
            ) by {
                reveal_strlit("/");
                reveal_strlit("/nginx");
                reveal_strlit("/nginx/");
                reveal_strlit(".keep");
                assert(nginx_site_path(old(self).home(), nm) =~= dir@ + "/"@ + nm);
                assert(nm != ".keep"@) by {
                    assert(".keep"@[0] == '.');
                }
                assert(old(self).files.has_entry(dir@ + "/"@ + nm));
                let k = choose|k: int|
                    0 <= k < listing@.len() && (#[trigger] listing@[k])@ == nm;
                let l = choose|l: int| 0 <= l < names@.len() && (#[trigger] names@[l])@ == nm;
            }
        }
    }

    /// Switches the default runtime: installs the target version, records
    /// it as active, stops the previous version when nothing uses it any
    /// longer, rewires every non-isolated site's socket reference and the
    /// default server block, and optionally the system `php` alias. An
    /// unrecognized version is a rejected request.
    pub fn switch_version(&mut self, version: &str, update_cli: bool, ignore_ext: bool) -> (r:
        Result<(), ValetError>)
        requires
            old(self).wf(),
        ensures
            final(self).wf(),
            r is Err ==> r->Err_0 is ValidationFailure,
            spec_normalize(version@).len() == 0 ==> r is Err && *final(self) == *old(self),
            // the switch succeeds exactly for a recognized version on a
            // host with a PHP-FPM layout
            r is Ok <==> (spec_normalize(version@).len() > 0 && old(self).spec_first_fpm_dir(
                spec_normalize(version@),
            ) is Some),
            r is Ok ==> ({
                let nv = spec_normalize(version@);
                let d = old(self).spec_first_fpm_dir(nv).unwrap();
                &&& final(self).config.state.php_version@ == nv
                &&& final(self).config.state.domain == old(self).config.state.domain
                &&& final(self).config.state.port == old(self).config.state.port
                &&& final(self).config.state.https_port == old(self).config.state.https_port
                &&& final(self).config.valet == old(self).config.valet
                &&& final(self).pm.is_installed("php"@ + nv + "-fpm"@)
                // the runtime's service is enabled
                &&& final(self).sm.is_enabled("php"@ + nv + "-fpm"@)
                // the default server block is rewired to the new socket
                &&& final(self).nginx.files.has_file(
                    "/etc/nginx/sites-available/valet.conf"@,
                )
                &&& final(self).nginx.files.file_at("/etc/nginx/sites-available/valet.conf"@)
                    == old(self).nginx.spec_server_block(spec_socket_name(nv))
                // the web server's restart is the last staged service
                // command
                &&& final(self).nginx.sm.cli.log().len() > 0
                &&& final(self).nginx.sm.cli.log().last() == (
                    false,
                    crate::manager::systemd::systemctl_cmd("restart"@, "nginx"@),
                )
                // the system alias is updated exactly when asked
                &&& (update_cli ==> final(self).cli.log() == old(self).cli.log().push(
                    (false, "update-alternatives --set php /usr/bin/php"@ + nv),
                ))
                &&& (!update_cli ==> final(self).cli.log() == old(self).cli.log())
                // the previous version is stopped exactly when nothing
                // uses it any longer
                &&& ({
                    let cv = spec_normalize(old(self).current());
                    let stop_entry = (false, service_cmd("stop"@, "php"@ + cv + "-fpm"@));
                    &&& (!(cv == nv || (is_known_version(cv) && version_in_use(
                        old(self).files,
                        old(self).home(),
                        cv,
                    ))) ==> final(self).sm.cli.log().len() >= 2 && final(self).sm.cli.log()[final(self).sm.cli.log().len() - 2] == stop_entry)
                    &&& ((cv == nv || (is_known_version(cv) && version_in_use(
                        old(self).files,
                        old(self).home(),
                        cv,
                    ))) ==> (forall|j: int|
                        old(self).sm.cli.log().len() <= j < final(self).sm.cli.log().len()
                            ==> #[trigger] final(self).sm.cli.log()[j] != stop_entry))
                })
            }),
    {
        let current_version = self.get_current_version();
        let nv = normalize_version(version);
        if nv.as_str().unicode_len() == 0 {
            return Err(ValetError::ValidationFailure(version.to_owned()));
        }
        match self.install(Some(nv.as_str()), !ignore_ext) {
            Ok(()) => {
                proof {
                    lemma_normalize_idempotent(nv@);
                }
            },
            Err(e) => {
                proof {
                    lemma_normalize_idempotent(nv@);
                }
                return Err(e);
            },
        }
        let svc = self.service_name(Some(nv.as_str()));
        if self.sm.disabled(svc.as_str()) {
            self.sm.enable(svc.as_str());
        }
        proof {
            assert(value_ok(nv@)) by {
                reveal_strlit("7.0");
                reveal_strlit("7.1");
                reveal_strlit("7.2");
                reveal_strlit("7.3");
                reveal_strlit("7.4");
                reveal_strlit("8.0");
                reveal_strlit("8.1");
                reveal_strlit("8.2");
                reveal_strlit("8.3");
            }
        }
        self.config.state.php_version = nv;
        let ghost s_before_stop = *self;
        proof {
            // the check sees the same generated site files as the caller
            let cvn = spec_normalize(current_version@);
            assert(current_version@ == old(self).current());
            assert(s_before_stop.home() == old(self).home());
            assert(s_before_stop.current() == spec_normalize(version@));
            if is_known_version(cvn) {
                assert(version_in_use(s_before_stop.files, old(self).home(), cvn)
                    == version_in_use(old(self).files, old(self).home(), cvn)) by {
                    if version_in_use(s_before_stop.files, old(self).home(), cvn) {
                        let n = choose|n: Seq<char>|
                            {
                                &&& #[trigger] s_before_stop.files.has_file(
                                    nginx_site_path(old(self).home(), n),
                                )
                                &&& !contains_seq(n, "/"@)
                                &&& n.len() > 0
                                &&& n[0] != '.'
                                &&& !is_isolated_content(
                                    s_before_stop.files.file_at(
                                        nginx_site_path(old(self).home(), n),
                                    ),
                                )
                                &&& contains_seq(
                                    s_before_stop.files.file_at(
                                        nginx_site_path(old(self).home(), n),
                                    ),
                                    spec_socket_name(cvn),
                                )
                            };
                        assert(old(self).files.has_file(nginx_site_path(old(self).home(), n)));
                        assert(version_in_use(old(self).files, old(self).home(), cvn));
                    }
                    if version_in_use(old(self).files, old(self).home(), cvn) {
                        let n = choose|n: Seq<char>|
                            {
                                &&& #[trigger] old(self).files.has_file(
                                    nginx_site_path(old(self).home(), n),
                                )
                                &&& !contains_seq(n, "/"@)
                                &&& n.len() > 0
                                &&& n[0] != '.'
                                &&& !is_isolated_content(
                                    old(self).files.file_at(
                                        nginx_site_path(old(self).home(), n),
                                    ),
                                )
                                &&& contains_seq(
                                    old(self).files.file_at(
                                        nginx_site_path(old(self).home(), n),
                                    ),
                                    spec_socket_name(cvn),
                                )
                            };
                        assert(s_before_stop.files.has_file(
                            nginx_site_path(old(self).home(), n),
                        ));
                        assert(version_in_use(s_before_stop.files, old(self).home(), cvn));
                    }
                }
            }
        }
        self.stop_if_unused(current_version.as_str());
        let ghost s_after_stop = *self;
        let nv2 = self.get_current_version();
        self.update_nginx_config_files(nv2.as_str());
        self.nginx.restart();
        self.status(Some(nv2.as_str()));
        if update_cli {
            let c = concat_str("update-alternatives --set php /usr/bin/php", nv2.as_str());
            self.cli.run(c.as_str());
        }
        proof {
            let cvn = spec_normalize(current_version@);
            let stop_entry = (false, service_cmd("stop"@, "php"@ + cvn + "-fpm"@));
            let used = cvn == spec_normalize(version@) || (is_known_version(cvn)
                && version_in_use(old(self).files, old(self).home(), cvn));
            if !used {
                // the stop stands right before the final status query
                assert(s_after_stop.sm.cli.log() == s_before_stop.sm.cli.log().push(stop_entry));
                assert(final(self).sm.cli.log()[final(self).sm.cli.log().len() - 2]
                    == stop_entry);
            } else {
                // no staged command is the stop command
                reveal_strlit("sudo service ");
                reveal_strlit("sudo update-rc.d ");
                reveal_strlit(" defaults");
                reveal_strlit(" ");
                reveal_strlit("service ");
                reveal_strlit(" status");
                reveal_strlit("stop");
                reveal_strlit("restart");
                reveal_strlit("php");
                reveal_strlit("-fpm");
                assert(s_after_stop == s_before_stop);
                let stop_cmd = service_cmd("stop"@, "php"@ + cvn + "-fpm"@);
                let svc = "php"@ + spec_normalize(version@) + "-fpm"@;
                let restart_cmd = service_cmd("restart"@, svc);
                let enable_cmd = "sudo update-rc.d "@ + svc + " defaults"@;
                let status_cmd = "service "@ + "php"@ + nv2@ + "-fpm"@ + " status"@;
                assert(stop_cmd.last() == 'p');
                assert(restart_cmd.last() == 't');
                assert(stop_cmd != restart_cmd);
                assert(enable_cmd[5] == 'u' && stop_cmd[5] == 's');
                assert(enable_cmd != stop_cmd);
                assert(status_cmd[1] == 'e' && stop_cmd[1] == 'u');
                assert(status_cmd != stop_cmd);
                assert forall|j: int|
                    old(self).sm.cli.log().len() <= j < final(self).sm.cli.log().len()
                        implies #[trigger] final(self).sm.cli.log()[j] != stop_entry by {
                }
            }
        }
        Ok(())
    }

    /// The pool configuration path of a supported version, when the host
    /// has a layout for it.
    pub open spec fn spec_pool_conf_path(self, v: Seq<char>) -> Seq<char> {
        self.spec_first_fpm_dir(v).unwrap() + "/valet.conf"@
    }

    /// The digit filter yields digits only.
    proof fn lemma_digits_of_lacks(s: Seq<char>, c: char)
        requires
            !spec_is_digit(c),
        ensures
            lacks_char(spec_digits_of(s), c),
        decreases s.len(),
    {
        if s.len() > 0 {
            Self::lemma_digits_of_lacks(s.skip(1), c);
            if spec_is_digit(s[0]) {
                assert forall|j: int|
                    0 <= j < spec_digits_of(s).len() implies spec_digits_of(s)[j] != c by {
                    if j > 0 {
                        assert(spec_digits_of(s)[j] == spec_digits_of(s.skip(1))[j - 1]);
                    }
                }
            }
        }
    }

    /// No pool configuration path carries the letter `g`, which every
    /// generated site path carries inside its directory name.
    proof fn lemma_pool_conf_lacks_g(self, v: Seq<char>)
        requires
            is_known_version(v),
            self.spec_first_fpm_dir(v) is Some,
        ensures
            lacks_char(self.spec_pool_conf_path(v), 'g'),
    {
        reveal_strlit("7.0");
        reveal_strlit("7.1");
        reveal_strlit("7.2");
        reveal_strlit("7.3");
        reveal_strlit("7.4");
        reveal_strlit("8.0");
        reveal_strlit("8.1");
        reveal_strlit("8.2");
        reveal_strlit("8.3");
        reveal_strlit("/etc/php/");
        reveal_strlit("/etc/php");
        reveal_strlit("/fpm/pool.d");
        reveal_strlit("/php-fpm.d");
        reveal_strlit("/etc/php7/fpm/php-fpm.d");
        reveal_strlit("/etc/php8/fpm/php-fpm.d");
        reveal_strlit("/etc/php-fpm.d");
        reveal_strlit("/etc/php/php-fpm.d");
        reveal_strlit("/valet.conf");
        assert(lacks_char(v, 'g'));
        Self::lemma_digits_of_lacks(v, 'g');
        assert(lacks_char("/etc/php/"@, 'g'));
        assert(lacks_char("/etc/php"@, 'g'));
        assert(lacks_char("/fpm/pool.d"@, 'g'));
        assert(lacks_char("/php-fpm.d"@, 'g'));
        assert(lacks_char("/valet.conf"@, 'g'));
        let d = self.spec_first_fpm_dir(v).unwrap();
        assert(lacks_char(d, 'g')) by {
            if d == "/etc/php/"@ + v + "/fpm/pool.d"@ {
                crate::strutil::lemma_lacks_concat("/etc/php/"@, v, 'g');
                crate::strutil::lemma_lacks_concat("/etc/php/"@ + v, "/fpm/pool.d"@, 'g');
            } else if d == "/etc/php"@ + v + "/fpm/pool.d"@ {
                crate::strutil::lemma_lacks_concat("/etc/php"@, v, 'g');
                crate::strutil::lemma_lacks_concat("/etc/php"@ + v, "/fpm/pool.d"@, 'g');
            } else if d == "/etc/php"@ + v + "/php-fpm.d"@ {
                crate::strutil::lemma_lacks_concat("/etc/php"@, v, 'g');
                crate::strutil::lemma_lacks_concat("/etc/php"@ + v, "/php-fpm.d"@, 'g');
            } else if d == "/etc/php"@ + spec_digits_of(v) + "/php-fpm.d"@ {
                crate::strutil::lemma_lacks_concat("/etc/php"@, spec_digits_of(v), 'g');
                crate::strutil::lemma_lacks_concat(
                    "/etc/php"@ + spec_digits_of(v),
                    "/php-fpm.d"@,
                    'g',
                );
            } else {
                assert(lacks_char("/etc/php7/fpm/php-fpm.d"@, 'g'));
                assert(lacks_char("/etc/php8/fpm/php-fpm.d"@, 'g'));
                assert(lacks_char("/etc/php-fpm.d"@, 'g'));
                assert(lacks_char("/etc/php/php-fpm.d"@, 'g'));
            }
        }
        crate::strutil::lemma_lacks_concat(d, "/valet.conf"@, 'g');
    }

    /// A pool configuration path never names a generated site file: the
    /// site directory's name carries a letter the pool path lacks.
    proof fn lemma_pool_conf_not_site(p: Seq<char>, home: Seq<char>, n: Seq<char>)
        requires
            lacks_char(p, 'g'),
        ensures
            p != nginx_site_path(home, n),
    {
        reveal_strlit("/nginx/");
        if p == nginx_site_path(home, n) {
            let i = home.len() as int + 2;
            assert(nginx_site_path(home, n) == home + "/nginx/"@ + n);
            assert((home + "/nginx/"@)[i] == ("/nginx/"@)[2]);
            assert((home + "/nginx/"@ + n)[i] == (home + "/nginx/"@)[i]);
            assert(("/nginx/"@)[2] == 'g');
            assert(p[i] == 'g');
            assert(0 <= i < p.len());
        }
    }

    /// Every file the home-path rewrite touches is a supported version's
    /// existing pool configuration: any other file stays byte-identical.
    #[verifier::opaque]
    pub open spec fn modifies_only_pool_confs(pre: PhpFpm, now: ValetFilesystem) -> bool {
        forall|q: Seq<char>|
            (#[trigger] now.has_file(q) != pre.files.has_file(q) || (pre.files.has_file(q)
                && now.has_file(q) && now.file_at(q) != pre.files.file_at(q))) ==> exists|v: Seq<char>|
                #[trigger] is_known_version(v) && pre.spec_first_fpm_dir(v) is Some && q
                    == pre.spec_pool_conf_path(v) && pre.files.has_file(q)
    }

    /// Rewrites the home path inside every supported version's pool
    /// configuration: each existing pool file gets every occurrence of
    /// the old home path replaced, once, and nothing else is modified.
    pub fn update_home_path(&mut self, old_home_path: &str, new_home_path: &str)
        requires
            old(self).wf(),
            old_home_path@.len() > 0,
        ensures
            final(self).wf(),
            final(self).config == old(self).config,
            final(self).pm == old(self).pm,
            final(self).nginx == old(self).nginx,
            final(self).cli == old(self).cli,
            final(self).sm == old(self).sm,
            // every supported version's existing pool configuration is
            // rewritten from its old contents
            forall|v: Seq<char>|
                #[trigger] is_known_version(v) && old(self).spec_first_fpm_dir(v) is Some && old(
                    self,
                ).files.has_file(old(self).spec_pool_conf_path(v)) ==> final(self).files.has_file(
                    old(self).spec_pool_conf_path(v),
                ) && final(self).files.file_at(old(self).spec_pool_conf_path(v)) == spec_replace(
                    old(self).files.file_at(old(self).spec_pool_conf_path(v)),
                    old_home_path@,
                    new_home_path@,
                ),
            // no other file is modified
            Self::modifies_only_pool_confs(*old(self), final(self).files),
    {
        let versions = crate::constants::isolation_supported_php_versions();
        proof {
            reveal(PhpFpm::modifies_only_pool_confs);
            assert(Self::modifies_only_pool_confs(*old(self), self.files));
        }
        let mut done: Vec<String> = Vec::new();
        let n = versions.len();
        let mut i: usize = 0;
        while i < n
            invariant
                self.wf(),
                old(self).wf(),
                self.config == old(self).config,
                self.pm == old(self).pm,
                self.nginx == old(self).nginx,
                self.cli == old(self).cli,
                self.sm == old(self).sm,
                self.files.dirs@ == old(self).files.dirs@,
                n == versions@.len(),
                n == 9,
                i <= n,
                old_home_path@.len() > 0,
                forall|k: int| 0 <= k < 9 ==> is_known_version((#[trigger] versions@[k])@),
                // each rewritten path is recorded once, with its new
                // contents in place
                forall|j: int|
                    0 <= j < done@.len() ==> old(self).files.has_file((#[trigger] done@[j])@)
                        && self.files.has_file(done@[j]@) && self.files.file_at(done@[j]@)
                        == spec_replace(
                        old(self).files.file_at(done@[j]@),
                        old_home_path@,
                        new_home_path@,
                    ) && (exists|v: Seq<char>|
                        #[trigger] is_known_version(v) && old(self).spec_first_fpm_dir(v)
                            is Some && done@[j]@ == old(self).spec_pool_conf_path(v)),
                // paths not recorded are untouched
                forall|q: Seq<char>|
                    (forall|j: int| 0 <= j < done@.len() ==> q != (#[trigger] done@[j])@)
                        ==> #[trigger] self.files.has_file(q) == old(self).files.has_file(q) && (
                    old(self).files.has_file(q) ==> self.files.file_at(q) == old(
                        self,
                    ).files.file_at(q)),
                // each processed version's existing pool file is recorded
                forall|k: int|
                    0 <= k < i && old(self).spec_first_fpm_dir((#[trigger] versions@[k])@)
                        is Some && old(self).files.has_file(
                        old(self).spec_pool_conf_path(versions@[k]@),
                    ) ==> exists|j: int|
                        0 <= j < done@.len() && (#[trigger] done@[j])@ == old(
                            self,
                        ).spec_pool_conf_path(versions@[k]@),
            decreases n - i,
        {
            let ghost pre = *self;
            let ghost pre_done = done@;
            match self.fpm_config_path(Some(versions[i])) {
                Ok(dir) => {
                    proof {
                        ValetFilesystem::lemma_same_dirs(self.files, old(self).files);
                        assert(old(self).spec_first_fpm_dir(versions@[i as int]@)
                            == self.spec_first_fpm_dir(versions@[i as int]@));
                    }
                    let conf_path = concat_str(dir.as_str(), "/valet.conf");
                    proof {
                        assert(conf_path@ == old(self).spec_pool_conf_path(
                            versions@[i as int]@,
                        ));
                    }
                    if self.files.is_file(conf_path.as_str()) && !contains_version(
                        &done,
                        conf_path.as_str(),
                    ) {
                        match self.files.get(conf_path.as_str()) {
                            Ok(valet_conf) => {
                                let updated = replace_all(
                                    valet_conf.as_str(),
                                    old_home_path,
                                    new_home_path,
                                );
                                self.files.put(conf_path.as_str(), updated.as_str());
                                done.push(conf_path);
                                proof {
                                    assert(done@[done@.len() - 1]@ == old(
                                        self,
                                    ).spec_pool_conf_path(versions@[i as int]@));
                                }
                            },
                            Err(_) => {
                            },
                        }
                    }
                    proof {
                        assert forall|k: int|
                            0 <= k < i + 1 && old(self).spec_first_fpm_dir(
                                (#[trigger] versions@[k])@,
                            ) is Some && old(self).files.has_file(
                                old(self).spec_pool_conf_path(versions@[k]@),
                            ) implies exists|j: int|
                            0 <= j < done@.len() && (#[trigger] done@[j])@ == old(
                                self,
                            ).spec_pool_conf_path(versions@[k]@) by {
                            if k == i {
                                let p = old(self).spec_pool_conf_path(versions@[k]@);
                                if !(exists|j: int|
                                    0 <= j < done@.len() && (#[trigger] done@[j])@ == p) {
                                    // never recorded: then it was untouched
                                    // and still present, so it cannot have
                                    // been skipped
                                    assert(forall|j: int|
                                        0 <= j < pre_done.len() ==> pre_done[j] == done@[j]);
                                    assert(forall|j: int|
                                        0 <= j < pre_done.len() ==> (#[trigger] pre_done[j])@
                                            != p);
                                    assert(pre.files.has_file(p) == old(self).files.has_file(
                                        p,
                                    ));
                                    assert(false);
                                }
                            } else {
                                let j = choose|j: int|
                                    0 <= j < pre_done.len() && (#[trigger] pre_done[j])@ == old(
                                        self,
                                    ).spec_pool_conf_path(versions@[k]@);
                                assert(done@[j]@ == old(self).spec_pool_conf_path(
                                    versions@[k]@,
                                ));
                            }
                        }
                    }
                },
                Err(_) => {
                    proof {
                        ValetFilesystem::lemma_same_dirs(self.files, old(self).files);
                        assert(old(self).spec_first_fpm_dir(versions@[i as int]@) is None);
                    }
                },
            }
            proof {
                // entries not recorded stay untouched through this step
                assert forall|q: Seq<char>|
                    (forall|j: int| 0 <= j < done@.len() ==> q != (#[trigger] done@[j])@)
                        implies #[trigger] self.files.has_file(q) == old(self).files.has_file(q)
                    && (old(self).files.has_file(q) ==> self.files.file_at(q) == old(
                    self,
                ).files.file_at(q)) by {
                    assert(forall|j: int| 0 <= j < pre_done.len() ==> pre_done[j] == done@[j]);
                    assert(forall|j: int|
                        0 <= j < pre_done.len() ==> q != (#[trigger] pre_done[j])@);
                    assert(pre.files.has_file(q) == old(self).files.has_file(q));
                    assert(old(self).files.has_file(q) ==> pre.files.file_at(q) == old(
                        self,
                    ).files.file_at(q));
                }
            }
            i += 1;
        }
        proof {
            assert forall|v: Seq<char>|
                #[trigger] is_known_version(v) && old(self).spec_first_fpm_dir(v) is Some && old(
                    self,
                ).files.has_file(old(self).spec_pool_conf_path(v)) implies final(self).files.has_file(old(self).spec_pool_conf_path(v)) && final(self).files.file_at(
                old(self).spec_pool_conf_path(v),
            ) == spec_replace(
                old(self).files.file_at(old(self).spec_pool_conf_path(v)),
                old_home_path@,
                new_home_path@,
            ) by {
                let k = choose|k: int|
                    0 <= k < versions@.len() && (#[trigger] versions@[k])@ == v;
                let j = choose|j: int|
                    0 <= j < done@.len() && (#[trigger] done@[j])@ == old(
                        self,
                    ).spec_pool_conf_path(v);
            }
            assert(Self::modifies_only_pool_confs(*old(self), final(self).files)) by {
                reveal(PhpFpm::modifies_only_pool_confs);
                assert forall|q: Seq<char>|
                    (#[trigger] final(self).files.has_file(q) != old(self).files.has_file(q) || (
                    old(self).files.has_file(q) && final(self).files.has_file(q) && final(self).files.file_at(q) != old(self).files.file_at(q))) implies exists|v: Seq<char>|
                    #[trigger] is_known_version(v) && old(self).spec_first_fpm_dir(v) is Some
                        && q == old(self).spec_pool_conf_path(v) && old(self).files.has_file(
                        q,
                    ) by {
                    let j = choose|j: int|
                        !(0 <= j < done@.len() ==> q != (#[trigger] done@[j])@);
                    let v = choose|v: Seq<char>|
                        #[trigger] is_known_version(v) && old(self).spec_first_fpm_dir(v)
                            is Some && done@[j]@ == old(self).spec_pool_conf_path(v);
                }
            }
        }
    }
}

/// The text holds a `unix:<path>.sock` reference after its first
/// `unix:`.
pub open spec fn spec_has_socket_ref(c: Seq<char>) -> bool {
    &&& first_occ(c, "unix:"@) >= 0
    &&& first_occ(c.skip(first_occ(c, "unix:"@) + 5), ".sock"@) >= 0
}

/// The text with the socket its first `unix:` reference addresses
/// replaced by `sock`.
pub open spec fn spec_rewrite_socket(c: Seq<char>, sock: Seq<char>) -> Seq<char> {
    let ub = first_occ(c, "unix:"@);
    c.subrange(0, ub + 5) + sock + c.skip(first_occ(c.skip(ub + 5), ".sock"@) + ub + 10)
}

/// Replaces the socket a `fastcgi_pass unix:<path>;` directive addresses
/// by the given socket path; None when the text holds no socket
/// reference.
pub fn rewrite_socket_reference(content: &str, socket_path: &str) -> (r: Option<String>)
    ensures
        match r {
            Some(u) => spec_has_socket_ref(content@) && u@ == spec_rewrite_socket(
                content@,
                socket_path@,
            ),
            None => !spec_has_socket_ref(content@),
        },
{
    proof {
        reveal_strlit("unix:");
        reveal_strlit(".sock");
    }
    let ghost s = content@;
    let n = content.unicode_len();
    let u = match find_from(content, 0, "unix:") {
        Option::None => {
            proof {
                crate::strutil::lemma_first_occ_none(s, "unix:"@);
            }
            return None;
        },
        Option::Some(u) => u,
    };
    proof {
        crate::strutil::lemma_first_occ_is(s, "unix:"@, u as int);
    }
    let e = match find_from(content, u + 5, ".sock") {
        Option::None => {
            proof {
                assert forall|j: int| #[trigger] occurs_at(s.skip(u + 5), ".sock"@, j)
                    implies false by {
                    if 0 <= j {
                        lemma_occ_skip(s, ".sock"@, u + 5, j);
                    }
                }
                assert(forall|j: int| !(#[trigger] occurs_at(s.skip(u + 5), ".sock"@, j)));
                crate::strutil::lemma_first_occ_none(s.skip(u + 5), ".sock"@);
            }
            return None;
        },
        Option::Some(e) => e,
    };
    proof {
        lemma_occ_skip(s, ".sock"@, u + 5, e - u - 5);
        assert forall|j: int| 0 <= j < e - u - 5 implies !(#[trigger] occurs_at(
            s.skip(u + 5),
            ".sock"@,
            j,
        )) by {
            lemma_occ_skip(s, ".sock"@, u + 5, j);
        }
        crate::strutil::lemma_first_occ_is(s.skip(u + 5), ".sock"@, e - u - 5);
    }
    let head = content.substring_char(0, u + 5);
    let tail = content.substring_char(e + 5, n);
    let a = concat_str(head, socket_path);
    let out = concat_str(a.as_str(), tail);
    proof {
        assert(tail@ =~= s.skip(e + 5));
        assert(first_occ(s.skip(u + 5), ".sock"@) + u + 10 == e + 5);
    }
    Some(out)
}


} // verus!
