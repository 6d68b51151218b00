//! Per-site TLS trust: the certificate-authority lifecycle, leaf
//! certificate issuance and revocation, and the regeneration of the
//! per-site server files that must always agree with the certificate
//! inventory: a certificate for a hostname exists exactly when its
//! generated file is of the secure kind.

use vstd::prelude::*;
use vstd::string::StrSliceExecFns;
use vstd::string::StringExecFns;

use crate::configuration::Configuration;
use crate::constants::{server_path, static_prefix};
use crate::error::ValetError;
use crate::manager::command::ValetCommandLine;
use crate::manager::file_system::ValetFilesystem;
use crate::php_fpm::{socket_name, spec_socket_name, spec_digits_of, spec_is_digit};
use crate::strutil::{concat_str, contains_seq, ends_with, lacks_char, no_upper, is_upper_char,
    spec_dec, str_eq, u64_to_string, replace_all};
use crate::stub::{
    render, recover_kind, spec_recover, spec_rendered, value_ok, kind_ok, params_ok, KindSpec,
    SiteKind, RenderParams, ParamsSpec,
};

verus! {

/// Issues and revokes per-site certificates and keeps the generated site
/// files consistent with them.
pub struct SiteSecure {
    pub files: ValetFilesystem,
    pub cli: ValetCommandLine,
    pub config: Configuration,
    pub ca_certificate_path: String,
    pub ca_certificate_pem: String,
    pub ca_certificate_key: String,
    pub ca_certificate_srl: String,
    pub ca_certificate_organization: String,
    pub ca_certificate_common_name: String,
    pub certificate_dummy_email: String,
}

impl SiteSecure {
    pub open spec fn wf(self) -> bool {
        &&& self.files.wf()
        &&& self.config.wf()
        &&& self.ca_certificate_path@ == "/usr/local/share/ca-certificates/"@
        &&& self.ca_certificate_pem@ == "ValetLinuxCASelfSigned.pem"@
        &&& self.ca_certificate_key@ == "ValetLinuxCASelfSigned.key"@
        &&& self.ca_certificate_srl@ == "ValetLinuxCASelfSigned.srl"@
    }

    pub open spec fn home(self) -> Seq<char> {
        self.config.valet.home_path@
    }

    /// The generated server file of a site.
    pub open spec fn site_file(self, url: Seq<char>) -> Seq<char> {
        self.home() + "/nginx/"@ + url
    }

    /// The four credential files of a site.
    pub open spec fn crt_file(self, url: Seq<char>) -> Seq<char> {
        self.home() + "/certificates/"@ + url + ".crt"@
    }

    pub open spec fn key_file(self, url: Seq<char>) -> Seq<char> {
        self.home() + "/certificates/"@ + url + ".key"@
    }

    pub open spec fn csr_file(self, url: Seq<char>) -> Seq<char> {
        self.home() + "/certificates/"@ + url + ".csr"@
    }

    pub open spec fn ext_conf_file(self, url: Seq<char>) -> Seq<char> {
        self.home() + "/certificates/"@ + url + ".conf"@
    }

    /// The root key and certificate of the authority.
    pub open spec fn ca_pem_file(self) -> Seq<char> {
        self.home() + "/ca/"@ + self.ca_certificate_pem@
    }

    pub open spec fn ca_key_file(self) -> Seq<char> {
        self.home() + "/ca/"@ + self.ca_certificate_key@
    }

    /// The serial-number file of the authority.
    pub open spec fn ca_srl_file(self) -> Seq<char> {
        self.home() + "/ca/"@ + self.ca_certificate_srl@
    }

    /// The copy of the root certificate in the OS trust store.
    pub open spec fn trust_file(self) -> Seq<char> {
        self.ca_certificate_path@ + self.ca_certificate_pem@ + ".crt"@
    }

    /// The root files and the trust-store copy have three distinct paths.
    pub proof fn lemma_ca_paths_distinct(self)
        requires
            self.wf(),
        ensures
            self.trust_file() != self.ca_pem_file(),
            self.trust_file() != self.ca_key_file(),
            self.ca_pem_file() != self.ca_key_file(),
    {
        reveal_strlit("/usr/local/share/ca-certificates/");
        reveal_strlit("ValetLinuxCASelfSigned.pem");
        reveal_strlit("ValetLinuxCASelfSigned.key");
        reveal_strlit(".crt");
        reveal_strlit("/ca/");
        assert(self.trust_file().last() == 't');
        assert(self.ca_pem_file().last() == 'm');
        assert(self.ca_key_file().last() == 'y');
    }

    /// The substitution values used for this site's rendered file.
    pub open spec fn spec_params(self, url: Seq<char>) -> ParamsSpec {
        ParamsSpec {
            site: url,
            http_port: self.config.state.port@,
            https_port: self.config.state.https_port@,
            home_path: self.home(),
            server_path: "/path/to/valet/server"@,
            static_prefix: "/static"@,
            socket_path: self.home() + "/"@ + spec_socket_name(self.config.state.php_version@),
        }
    }

    /// The kind source of a site: an explicit seed, or the existing
    /// generated file, if any.
    pub open spec fn spec_source(self, url: Seq<char>, seed: Option<Seq<char>>) -> Option<
        Seq<char>,
    > {
        match seed {
            Option::Some(s) => Option::Some(s),
            Option::None => if self.files.has_file(self.site_file(url)) {
                Option::Some(self.files.file_at(self.site_file(url)))
            } else {
                Option::None
            },
        }
    }

    /// An empty recovered isolation version means "use the default".
    pub open spec fn spec_adjust(self, k: KindSpec) -> KindSpec {
        match k {
            KindSpec::Isolated(v) => if v.len() == 0 {
                KindSpec::Isolated(self.config.state.php_version@)
            } else {
                KindSpec::Isolated(v)
            },
            _ => k,
        }
    }

    /// The kind a site's replacement file is rendered from: recovered
    /// from the source, plain when there is none; None on a parse
    /// failure.
    pub open spec fn spec_prepared(self, url: Seq<char>, seed: Option<Seq<char>>) -> Option<
        KindSpec,
    > {
        match self.spec_source(url, seed) {
            Option::None => Option::Some(KindSpec::Plain),
            Option::Some(c) => match spec_recover(c) {
                Option::Some(k) => Option::Some(self.spec_adjust(k)),
                Option::None => Option::None,
            },
        }
    }

    pub fn new(filesystem: ValetFilesystem, cli: ValetCommandLine, config: Configuration) -> (r:
        SiteSecure)
        requires
            filesystem.wf(),
            config.wf(),
        ensures
            r.wf(),
            r.files == filesystem,
            r.cli == cli,
            r.config == config,
            r.ca_certificate_path@ == "/usr/local/share/ca-certificates/"@,
            r.ca_certificate_pem@ == "ValetLinuxCASelfSigned.pem"@,
            r.ca_certificate_key@ == "ValetLinuxCASelfSigned.key"@,
            r.ca_certificate_srl@ == "ValetLinuxCASelfSigned.srl"@,
    {
        SiteSecure {
            files: filesystem,
            cli,
            config,
            ca_certificate_path: "/usr/local/share/ca-certificates/".to_owned(),
            ca_certificate_pem: "ValetLinuxCASelfSigned.pem".to_owned(),
            ca_certificate_key: "ValetLinuxCASelfSigned.key".to_owned(),
            ca_certificate_srl: "ValetLinuxCASelfSigned.srl".to_owned(),
            ca_certificate_organization: "Valet Linux CA Self Signed Organization".to_owned(),
            ca_certificate_common_name: "Valet Linux CA Self Signed CN".to_owned(),
            certificate_dummy_email: "certificate@valet.linux".to_owned(),
        }
    }

    /// The path of a site's generated file.
    pub fn nginx_path(&self, url: &str) -> (r: String)
        ensures
            r@ == self.site_file(url@),
    {
        let a = concat_str(self.config.valet.home_path.as_str(), "/nginx/");
        concat_str(a.as_str(), url)
    }

    /// The certificate directory, or a file inside it.
    pub fn certificates_path(&self, file: Option<&str>) -> (r: String)
        ensures
            r@ == self.home() + "/certificates"@ + match file {
                Option::Some(f) => "/"@ + f@,
                Option::None => Seq::<char>::empty(),
            },
    {
        let base = concat_str(self.config.valet.home_path.as_str(), "/certificates");
        match file {
            Option::Some(f) => {
                let ghost b = base@;
                let a = concat_str(base.as_str(), "/");
                let r = concat_str(a.as_str(), f);
                proof {
                    assert(r@ =~= b + ("/"@ + f@));
                }
                r
            },
            Option::None => {
                proof {
                    assert(base@ + Seq::<char>::empty() =~= base@);
                }
                base
            },
        }
    }

    /// The authority directory, or a file inside it.
    pub fn ca_path(&self, file: Option<&str>) -> (r: String)
        ensures
            r@ == self.home() + "/ca"@ + match file {
                Option::Some(f) => "/"@ + f@,
                Option::None => Seq::<char>::empty(),
            },
    {
        let base = concat_str(self.config.valet.home_path.as_str(), "/ca");
        match file {
            Option::Some(f) => {
                let ghost b = base@;
                let a = concat_str(base.as_str(), "/");
                let r = concat_str(a.as_str(), f);
                proof {
                    assert(r@ =~= b + ("/"@ + f@));
                }
                r
            },
            Option::None => {
                proof {
                    assert(base@ + Seq::<char>::empty() =~= base@);
                }
                base
            },
        }
    }

    /// The redirect suffix of the secure port: empty for the default
    /// port, `:<port>` otherwise.
    pub fn https_suffix(&self) -> (r: String)
        ensures
            self.config.state.https_port@ == "443"@ ==> r@ == Seq::<char>::empty(),
            self.config.state.https_port@ != "443"@ ==> r@ == ":"@
                + self.config.state.https_port@,
    {
        if str_eq(self.config.state.https_port.as_str(), "443") {
            String::new()
        } else {
            concat_str(":", self.config.state.https_port.as_str())
        }
    }

    /// A text is usable as a substitution value.
    fn check_value(s: &str) -> (r: bool)
        ensures
            r == value_ok(s@),
    {
        let n = s.unicode_len();
        if n == 0 {
            return false;
        }
        let mut i: usize = 0;
        while i < n
            invariant
                n == s@.len(),
                i <= n,
                forall|j: int| 0 <= j < i ==> !is_upper_char(s@[j]),
            decreases n - i,
        {
            let c = s.get_char(i);
            if (c as u32) >= 65 && (c as u32) <= 90 {
                return false;
            }
            i += 1;
        }
        true
    }

    /// Recovers the kind a site's replacement file must be rendered from:
    /// from the seed when one is given, else from the site's existing
    /// file, defaulting to plain; an empty recovered isolation version is
    /// replaced by the active version. A recovered proxy target is carried
    /// through verbatim; a recovered isolation version that is not usable
    /// as a substitution value is a validation failure.
    pub fn prepare_conf(&self, url: &str, seed: Option<&str>) -> (r: Result<SiteKind, ValetError>)
        requires
            self.wf(),
        ensures
            match r {
                Ok(k) => {
                    &&& self.spec_prepared(
                        url@,
                        match seed {
                            Option::Some(s) => Option::Some(s@),
                            Option::None => Option::<Seq<char>>::None,
                        },
                    ) == Option::Some(k@)
                    &&& kind_ok(k@)
                },
                Err(e) => e is ParseFailure || e is ValidationFailure,
            },
            value_ok(self.config.state.php_version@) ==> (r is Err <==> ({
                let p = self.spec_prepared(
                    url@,
                    match seed {
                        Option::Some(s) => Option::Some(s@),
                        Option::None => Option::<Seq<char>>::None,
                    },
                );
                p is None || !kind_ok(p.unwrap())
            })),
    {
        let source: Option<String> = match seed {
            Option::Some(s) => Some(s.to_owned()),
            Option::None => {
                let p = self.nginx_path(url);
                if self.files.is_file(p.as_str()) {
                    match self.files.get(p.as_str()) {
                        Ok(c) => Some(c),
                        Err(e) => None,
                    }
                } else {
                    None
                }
            },
        };
        let kind = match source {
            None => SiteKind::Plain,
            Some(c) => {
                match recover_kind(c.as_str()) {
                    Ok(k) => k,
                    Err(e) => {
                        return Err(e);
                    },
                }
            },
        };
        let kind = match kind {
            SiteKind::Isolated { php_version } => {
                if php_version.as_str().unicode_len() == 0 {
                    SiteKind::Isolated { php_version: self.config.state.php_version.clone() }
                } else {
                    SiteKind::Isolated { php_version }
                }
            },
            k => k,
        };
        match &kind {
            SiteKind::Plain => {
            },
            SiteKind::Proxy { target } => {
            },
            SiteKind::Isolated { php_version } => {
                if !Self::check_value(php_version.as_str()) {
                    return Err(
                        ValetError::ValidationFailure(
                            "the recovered isolation version is not usable".to_owned(),
                        ),
                    );
                }
            },
        }
        Ok(kind)
    }

    /// The substitution values of this site.
    fn render_params_for(&self, url: &str) -> (r: RenderParams)
        requires
            self.wf(),
        ensures
            r@ == self.spec_params(url@),
            value_ok(url@) ==> params_ok(r@),
    {
        let sock_name = socket_name(self.config.state.php_version.as_str());
        let a = concat_str(self.config.valet.home_path.as_str(), "/");
        let sock_path = concat_str(a.as_str(), sock_name.as_str());
        let r = RenderParams {
            site: url.to_owned(),
            http_port: self.config.state.port.clone(),
            https_port: self.config.state.https_port.clone(),
            home_path: self.config.valet.home_path.clone(),
            server_path: server_path().to_owned(),
            static_prefix: static_prefix().to_owned(),
            socket_path: sock_path,
        };
        proof {
            reveal_strlit("/path/to/valet/server");
            reveal_strlit("/static");
            reveal_strlit("valet");
            reveal_strlit(".sock");
            reveal_strlit("/");
            assert(no_upper("/path/to/valet/server"@));
            assert(no_upper("/static"@));
            assert(no_upper("valet"@));
            assert(no_upper(".sock"@));
            assert(no_upper("/"@));
            lemma_digits_no_upper(self.config.state.php_version@);
            crate::strutil::lemma_no_upper_concat("valet"@, spec_digits_of(
                self.config.state.php_version@,
            ));
            crate::strutil::lemma_no_upper_concat("valet"@ + spec_digits_of(
                self.config.state.php_version@,
            ), ".sock"@);
            crate::strutil::lemma_no_upper_concat(self.home(), "/"@);
            crate::strutil::lemma_no_upper_concat(self.home() + "/"@, spec_socket_name(
                self.config.state.php_version@,
            ));
            assert(r@.socket_path.len() > 0);
        }
        r
    }
}

impl SiteSecure {
    /// The four credential files of one site have four distinct paths.
    pub proof fn lemma_cert_files_distinct(self, u: Seq<char>)
        ensures
            self.crt_file(u) != self.key_file(u),
            self.crt_file(u) != self.csr_file(u),
            self.crt_file(u) != self.ext_conf_file(u),
            self.key_file(u) != self.csr_file(u),
            self.key_file(u) != self.ext_conf_file(u),
            self.csr_file(u) != self.ext_conf_file(u),
    {
        reveal_strlit(".crt");
        reveal_strlit(".key");
        reveal_strlit(".csr");
        reveal_strlit(".conf");
        let a = self.home() + "/certificates/"@ + u;
        if self.crt_file(u) == self.key_file(u) {
            crate::strutil::lemma_concat_cancel_left(a, ".crt"@, ".key"@);
            assert(".crt"@[1] == 'c' && ".key"@[1] == 'k');
        }
        if self.crt_file(u) == self.csr_file(u) {
            crate::strutil::lemma_concat_cancel_left(a, ".crt"@, ".csr"@);
            assert(".crt"@[2] == 'r' && ".csr"@[2] == 's');
        }
        if self.crt_file(u) == self.ext_conf_file(u) {
            crate::strutil::lemma_concat_cancel_left(a, ".crt"@, ".conf"@);
            assert(".crt"@.len() != ".conf"@.len());
        }
        if self.key_file(u) == self.csr_file(u) {
            crate::strutil::lemma_concat_cancel_left(a, ".key"@, ".csr"@);
            assert(".key"@[1] == 'k' && ".csr"@[1] == 'c');
        }
        if self.key_file(u) == self.ext_conf_file(u) {
            crate::strutil::lemma_concat_cancel_left(a, ".key"@, ".conf"@);
            assert(".key"@.len() != ".conf"@.len());
        }
        if self.csr_file(u) == self.ext_conf_file(u) {
            crate::strutil::lemma_concat_cancel_left(a, ".csr"@, ".conf"@);
            assert(".csr"@.len() != ".conf"@.len());
        }
    }

    /// Certificate paths determine their hostname.
    pub proof fn lemma_crt_injective(self, a: Seq<char>, b: Seq<char>)
        requires
            self.crt_file(a) == self.crt_file(b),
        ensures
            a == b,
    {
        let pre = self.home() + "/certificates/"@;
        assert(pre + (a + ".crt"@) =~= self.crt_file(a));
        assert(pre + (b + ".crt"@) =~= self.crt_file(b));
        crate::strutil::lemma_concat_cancel_left(pre, a + ".crt"@, b + ".crt"@);
        crate::strutil::lemma_concat_cancel_right(a, b, ".crt"@);
    }

    /// A certificate path never collides with another site's key, signing
    /// request or extension configuration: the extensions differ.
    pub proof fn lemma_crt_kinds_distinct(self, u: Seq<char>, v: Seq<char>)
        ensures
            self.crt_file(u) != self.key_file(v),
            self.crt_file(u) != self.csr_file(v),
            self.crt_file(u) != self.ext_conf_file(v),
    {
        reveal_strlit(".crt");
        reveal_strlit(".key");
        reveal_strlit(".csr");
        reveal_strlit(".conf");
        assert(self.crt_file(u).last() == 't');
        assert(self.key_file(v).last() == 'y');
        assert(self.csr_file(v).last() == 'r');
        assert(self.ext_conf_file(v).last() == 'f');
    }

    /// A generated site file never collides with the root files.
    pub proof fn lemma_site_ca_distinct(self, u: Seq<char>)
        requires
            self.wf(),
        ensures
            self.site_file(u) != self.ca_pem_file(),
            self.site_file(u) != self.ca_key_file(),
    {
        reveal_strlit("/nginx/");
        reveal_strlit("/ca/");
        reveal_strlit("ValetLinuxCASelfSigned.pem");
        reveal_strlit("ValetLinuxCASelfSigned.key");
        let h = self.home();
        if self.site_file(u) == self.ca_pem_file() {
            assert(h + ("/nginx/"@ + u) =~= h + "/nginx/"@ + u);
            assert(h + ("/ca/"@ + self.ca_certificate_pem@) =~= h + "/ca/"@
                + self.ca_certificate_pem@);
            crate::strutil::lemma_concat_cancel_left(h, "/nginx/"@ + u, "/ca/"@
                + self.ca_certificate_pem@);
            assert(("/nginx/"@ + u)[1] == 'n');
            assert(("/ca/"@ + self.ca_certificate_pem@)[1] == 'c');
        }
        if self.site_file(u) == self.ca_key_file() {
            assert(h + ("/nginx/"@ + u) =~= h + "/nginx/"@ + u);
            assert(h + ("/ca/"@ + self.ca_certificate_key@) =~= h + "/ca/"@
                + self.ca_certificate_key@);
            crate::strutil::lemma_concat_cancel_left(h, "/nginx/"@ + u, "/ca/"@
                + self.ca_certificate_key@);
            assert(("/nginx/"@ + u)[1] == 'n');
            assert(("/ca/"@ + self.ca_certificate_key@)[1] == 'c');
        }
    }

    /// A site's credential files never collide with the root files.
    pub proof fn lemma_cert_ca_distinct(self, u: Seq<char>)
        requires
            self.wf(),
        ensures
            self.crt_file(u) != self.ca_pem_file(),
            self.crt_file(u) != self.ca_key_file(),
            self.key_file(u) != self.ca_pem_file(),
            self.key_file(u) != self.ca_key_file(),
            self.csr_file(u) != self.ca_pem_file(),
            self.csr_file(u) != self.ca_key_file(),
            self.ext_conf_file(u) != self.ca_pem_file(),
            self.ext_conf_file(u) != self.ca_key_file(),
    {
        reveal_strlit("/certificates/");
        reveal_strlit("/ca/");
        reveal_strlit(".crt");
        reveal_strlit(".key");
        reveal_strlit(".csr");
        reveal_strlit(".conf");
        reveal_strlit("ValetLinuxCASelfSigned.pem");
        reveal_strlit("ValetLinuxCASelfSigned.key");
        let h = self.home();
        let pem = self.ca_certificate_pem@;
        let key = self.ca_certificate_key@;
        let certs = "/certificates/"@;
        let cadir = "/ca/"@;
        assert forall|x: Seq<char>, y: Seq<char>|
            h + certs + u + x == h + cadir + y && certs[2] != cadir[2] implies false by {
            assert(h + certs + u + x =~= h + (certs + (u + x)));
            assert(h + cadir + y =~= h + (cadir + y));
            crate::strutil::lemma_concat_cancel_left(h, certs + (u + x), cadir + y);
            assert((certs + (u + x))[2] == certs[2]);
            assert((cadir + y)[2] == cadir[2]);
        }
        assert(certs[2] == 'e' && cadir[2] == 'a');
    }

    /// A generated site file and a credential file never share a path.
    pub proof fn lemma_site_cert_distinct(self, u: Seq<char>, v: Seq<char>)
        ensures
            self.site_file(u) != self.crt_file(v),
            self.site_file(u) != self.key_file(v),
            self.site_file(u) != self.csr_file(v),
            self.site_file(u) != self.ext_conf_file(v),
    {
        reveal_strlit("/nginx/");
        reveal_strlit("/certificates/");
        reveal_strlit(".crt");
        reveal_strlit(".key");
        reveal_strlit(".csr");
        reveal_strlit(".conf");
        let h = self.home();
        if self.site_file(u) == self.crt_file(v) {
            assert(h + ("/nginx/"@ + u) =~= h + "/nginx/"@ + u);
            assert(h + ("/certificates/"@ + (v + ".crt"@)) =~= h + "/certificates/"@ + v
                + ".crt"@);
            crate::strutil::lemma_concat_cancel_left(h, "/nginx/"@ + u, "/certificates/"@ + (v
                + ".crt"@));
            assert(("/nginx/"@ + u)[1] == 'n');
            assert(("/certificates/"@ + (v + ".crt"@))[1] == 'c');
        }
        if self.site_file(u) == self.key_file(v) {
            assert(h + ("/nginx/"@ + u) =~= h + "/nginx/"@ + u);
            assert(h + ("/certificates/"@ + (v + ".key"@)) =~= h + "/certificates/"@ + v
                + ".key"@);
            crate::strutil::lemma_concat_cancel_left(h, "/nginx/"@ + u, "/certificates/"@ + (v
                + ".key"@));
            assert(("/nginx/"@ + u)[1] == 'n');
            assert(("/certificates/"@ + (v + ".key"@))[1] == 'c');
        }
        if self.site_file(u) == self.csr_file(v) {
            assert(h + ("/nginx/"@ + u) =~= h + "/nginx/"@ + u);
            assert(h + ("/certificates/"@ + (v + ".csr"@)) =~= h + "/certificates/"@ + v
                + ".csr"@);
            crate::strutil::lemma_concat_cancel_left(h, "/nginx/"@ + u, "/certificates/"@ + (v
                + ".csr"@));
            assert(("/nginx/"@ + u)[1] == 'n');
            assert(("/certificates/"@ + (v + ".csr"@))[1] == 'c');
        }
        if self.site_file(u) == self.ext_conf_file(v) {
            assert(h + ("/nginx/"@ + u) =~= h + "/nginx/"@ + u);
            assert(h + ("/certificates/"@ + (v + ".conf"@)) =~= h + "/certificates/"@ + v
                + ".conf"@);
            crate::strutil::lemma_concat_cancel_left(h, "/nginx/"@ + u, "/certificates/"@ + (v
                + ".conf"@));
            assert(("/nginx/"@ + u)[1] == 'n');
            assert(("/certificates/"@ + (v + ".conf"@))[1] == 'c');
        }
    }
}

/// Digits carry no upper-case letters.
proof fn lemma_digits_no_upper(s: Seq<char>)
    ensures
        no_upper(spec_digits_of(s)),
    decreases s.len(),
{
    if s.len() > 0 {
        lemma_digits_no_upper(s.skip(1));
        if spec_is_digit(s[0]) {
            assert(!is_upper_char(s[0]));
            assert(no_upper(seq![s[0]]));
            crate::strutil::lemma_no_upper_concat(seq![s[0]], spec_digits_of(s.skip(1)));
        }
    }
}

impl SiteSecure {
    /// The subject line of the root certificate.
    pub open spec fn spec_ca_subject(self) -> Seq<char> {
        "/C=/ST=/O="@ + self.ca_certificate_organization@ + "/localityName=/commonName="@
            + self.ca_certificate_common_name@
            + "/organizationalUnitName=Developers/emailAddress="@ + self.certificate_dummy_email@
            + "/"@
    }

    /// The commands that re-assert trust: the store refresh and the three
    /// best-effort certificate-database imports.
    pub open spec fn spec_trust_cmds(self, pem: Seq<char>) -> Seq<(bool, Seq<char>)> {
        seq![
            (false, "sudo update-ca-certificates"@),
            (
                true,
                "certutil -d sql:$HOME/.pki/nssdb -A -t TC -n \""@
                    + self.ca_certificate_organization@ + "\" -i \""@ + pem + "\""@,
            ),
            (
                true,
                "certutil -d $HOME/.mozilla/firefox/*.default -A -t TC -n \""@
                    + self.ca_certificate_organization@ + "\" -i \""@ + pem + "\""@,
            ),
            (
                true,
                "certutil -d $HOME/snap/firefox/common/.mozilla/firefox/*.default -A -t TC -n \""@
                    + self.ca_certificate_organization@ + "\" -i \""@ + pem + "\""@,
            ),
        ]
    }

    /// The command that issues a site's key and signing request.
    pub open spec fn spec_cert_req_cmd(self, url: Seq<char>) -> Seq<char> {
        "openssl req -new -newkey rsa:2048 -sha256 -nodes -keyout \""@ + self.key_file(url)
            + "\" -subj \"/CN="@ + url + "\" -out \""@ + self.csr_file(url) + "\" -config \""@
            + self.ext_conf_file(url) + "\""@
    }

    /// The command that signs a site's certificate with the root key for
    /// the given number of days, drawing the next serial number.
    pub open spec fn spec_cert_sign_cmd(self, url: Seq<char>, days: int) -> Seq<char> {
        "openssl x509 -req -sha256 -in \""@ + self.csr_file(url) + "\" -CA \""@
            + self.ca_pem_file() + "\" -CAkey \""@ + self.ca_key_file()
            + "\" -CAcreateserial -CAserial \""@ + self.ca_srl_file() + "\" -out \""@
            + self.crt_file(url) + "\" -days "@ + spec_dec(days) + " -extfile \""@
            + self.ext_conf_file(url) + "\" -extensions x509_ext"@
    }

    /// The command that generates the root key and certificate.
    pub open spec fn spec_ca_create_cmd(self, days: int) -> Seq<char> {
        "openssl req -new -newkey rsa:2048 -days "@ + spec_dec(days) + " -nodes -x509 -subj \""@
            + self.spec_ca_subject() + "\" -keyout \""@ + self.ca_key_file() + "\" -out \""@
            + self.ca_pem_file() + "\""@
    }

    /// The OpenSSL extension configuration of a site's certificate.
    pub open spec fn spec_cert_conf(self, url: Seq<char>) -> Seq<char> {
        "[dn]\nCN="@ + url + "\n[req]\ndistinguished_name = dn\n[EXT]\nsubjectAltName=DNS:"@ + url
            + "\nkeyUsage=digitalSignature\nextendedKeyUsage=serverAuth\n[x509_ext]\nsubjectAltName=DNS:"@
            + url + "\n"@
    }

    /// Relies on chrono's instant and delta arithmetic: adding a delta of
    /// `days` whole days to the current instant and subtracting the
    /// instant again leaves exactly `days` whole days, whatever the
    /// current time is.
    #[verifier::external_body]
    pub fn calculate_expiry_days(&self, days: i64) -> (r: i64)
        requires
            0 <= days <= 36500,
        ensures
            r == days,
    {
        let now = chrono::Utc::now();
        let expiry_date = now + chrono::Duration::days(days);
        (expiry_date - now).num_days()
    }

    /// Stages the removal of the root certificate from the OS trust store
    /// and its refresh.
    pub fn un_trust_ca(&mut self)
        requires
            old(self).wf(),
        ensures
            final(self).wf(),
            final(self).config == old(self).config,
            final(self).ca_certificate_path == old(self).ca_certificate_path,
            final(self).ca_certificate_pem == old(self).ca_certificate_pem,
            final(self).ca_certificate_key == old(self).ca_certificate_key,
            final(self).ca_certificate_srl == old(self).ca_certificate_srl,
            final(self).ca_certificate_organization == old(self).ca_certificate_organization,
            final(self).ca_certificate_common_name == old(self).ca_certificate_common_name,
            final(self).certificate_dummy_email == old(self).certificate_dummy_email,
            forall|q: Seq<char>|
                final(self).files.has_file(q) == (old(self).files.has_file(q) && q != old(self).trust_file()),
            forall|q: Seq<char>|
                q != old(self).trust_file() && old(self).files.has_file(q) ==> final(self).files.file_at(q) == old(self).files.file_at(q),
            final(self).cli.log() == old(self).cli.log().push(
                (false, "sudo update-ca-certificates"@),
            ),
    {
        let a = concat_str(self.ca_certificate_path.as_str(), self.ca_certificate_pem.as_str());
        let trust = concat_str(a.as_str(), ".crt");
        proof {
            assert(trust@ =~= self.trust_file());
        }
        self.files.remove(trust.as_str());
        self.cli.run("sudo update-ca-certificates");
    }

    /// Stages the copy of the root certificate into the OS trust store,
    /// the store refresh, and the best-effort imports into the user and
    /// browser certificate databases.
    pub fn trust_ca(&mut self, ca_pem_path: &str)
        requires
            old(self).wf(),
            old(self).files.has_file(ca_pem_path@),
        ensures
            final(self).wf(),
            final(self).config == old(self).config,
            final(self).ca_certificate_path == old(self).ca_certificate_path,
            final(self).ca_certificate_pem == old(self).ca_certificate_pem,
            final(self).ca_certificate_key == old(self).ca_certificate_key,
            final(self).ca_certificate_srl == old(self).ca_certificate_srl,
            final(self).ca_certificate_organization == old(self).ca_certificate_organization,
            final(self).ca_certificate_common_name == old(self).ca_certificate_common_name,
            final(self).certificate_dummy_email == old(self).certificate_dummy_email,
            forall|q: Seq<char>|
                final(self).files.has_file(q) == (old(self).files.has_file(q) || q == old(self).trust_file()),
            final(self).files.file_at(old(self).trust_file()) == old(self).files.file_at(
                ca_pem_path@,
            ),
            forall|q: Seq<char>|
                q != old(self).trust_file() && old(self).files.has_file(q) ==> final(self).files.file_at(q) == old(self).files.file_at(q),
            final(self).cli.log() == old(self).cli.log() + old(self).spec_trust_cmds(
                ca_pem_path@,
            ),
    {
        let a = concat_str(self.ca_certificate_path.as_str(), self.ca_certificate_pem.as_str());
        let trust = concat_str(a.as_str(), ".crt");
        proof {
            assert(trust@ =~= self.trust_file());
        }
        let _copy_result = self.files.copy(ca_pem_path, trust.as_str());
        self.cli.run("sudo update-ca-certificates");
        let c1a = concat_str(
            "certutil -d sql:$HOME/.pki/nssdb -A -t TC -n \"",
            self.ca_certificate_organization.as_str(),
        );
        let c1b = concat_str(c1a.as_str(), "\" -i \"");
        let c1c = concat_str(c1b.as_str(), ca_pem_path);
        let c1 = concat_str(c1c.as_str(), "\"");
        self.cli.run_as_user(c1.as_str());
        let c2a = concat_str(
            "certutil -d $HOME/.mozilla/firefox/*.default -A -t TC -n \"",
            self.ca_certificate_organization.as_str(),
        );
        let c2b = concat_str(c2a.as_str(), "\" -i \"");
        let c2c = concat_str(c2b.as_str(), ca_pem_path);
        let c2 = concat_str(c2c.as_str(), "\"");
        self.cli.run_as_user(c2.as_str());
        let c3a = concat_str(
            "certutil -d $HOME/snap/firefox/common/.mozilla/firefox/*.default -A -t TC -n \"",
            self.ca_certificate_organization.as_str(),
        );
        let c3b = concat_str(c3a.as_str(), "\" -i \"");
        let c3c = concat_str(c3b.as_str(), ca_pem_path);
        let c3 = concat_str(c3c.as_str(), "\"");
        self.cli.run_as_user(c3.as_str());
        proof {
            assert(final(self).cli.log() =~= old(self).cli.log() + old(self).spec_trust_cmds(
                ca_pem_path@,
            ));
        }
    }

    /// Idempotently guarantees a trusted root: when the key and the
    /// certificate both exist, only trust is re-asserted and the
    /// filesystem sees no change beyond refreshing the trust-store copy;
    /// otherwise any half state is removed and a fresh pair is staged.
    pub fn create_ca(&mut self, ca_expire_in_days: i64)
        requires
            old(self).wf(),
            0 <= ca_expire_in_days <= 36500,
        ensures
            final(self).wf(),
            final(self).config == old(self).config,
            final(self).files.has_file(final(self).ca_pem_file()),
            final(self).files.has_file(final(self).ca_key_file()),
            final(self).files.has_file(final(self).trust_file()),
            final(self).ca_certificate_path == old(self).ca_certificate_path,
            final(self).ca_certificate_pem == old(self).ca_certificate_pem,
            final(self).ca_certificate_key == old(self).ca_certificate_key,
            final(self).ca_certificate_srl == old(self).ca_certificate_srl,
            final(self).ca_certificate_organization == old(self).ca_certificate_organization,
            final(self).ca_certificate_common_name == old(self).ca_certificate_common_name,
            final(self).certificate_dummy_email == old(self).certificate_dummy_email,
            // re-assertion path: nothing changes but the trust-store copy
            old(self).files.has_file(old(self).ca_pem_file()) && old(self).files.has_file(
                old(self).ca_key_file(),
            ) ==> {
                &&& forall|q: Seq<char>|
                    final(self).files.has_file(q) == (old(self).files.has_file(q) || q == old(self).trust_file())
                &&& forall|q: Seq<char>|
                    q != old(self).trust_file() && old(self).files.has_file(q) ==> final(self).files.file_at(q) == old(self).files.file_at(q)
                &&& final(self).files.file_at(old(self).trust_file()) == old(self).files.file_at(old(self).ca_pem_file())
            },
            // the second call of two changes nothing at all
            old(self).files.has_file(old(self).ca_pem_file()) && old(self).files.has_file(
                old(self).ca_key_file(),
            ) && old(self).files.has_file(old(self).trust_file()) && old(self).files.file_at(
                old(self).trust_file(),
            ) == old(self).files.file_at(old(self).ca_pem_file()) ==> {
                &&& forall|q: Seq<char>|
                    final(self).files.has_file(q) == old(self).files.has_file(q)
                &&& forall|q: Seq<char>|
                    old(self).files.has_file(q) ==> final(self).files.file_at(q) == old(self).files.file_at(q)
            },
            // fresh-pair path: only the pair and the trust copy change
            !(old(self).files.has_file(old(self).ca_pem_file()) && old(self).files.has_file(
                old(self).ca_key_file(),
            )) ==> forall|q: Seq<char>|
                q != old(self).trust_file() && q != old(self).ca_pem_file() && q != old(self).ca_key_file() ==> final(self).files.has_file(q) == old(self).files.has_file(q)
                    && (old(self).files.has_file(q) ==> final(self).files.file_at(q) == old(self).files.file_at(q)),
            // re-asserting stages only the trust commands, no generation
            old(self).files.has_file(old(self).ca_pem_file()) && old(self).files.has_file(
                old(self).ca_key_file(),
            ) ==> final(self).cli.log() == old(self).cli.log() + old(self).spec_trust_cmds(
                old(self).ca_pem_file(),
            ),
            // a fresh pair stages the store refresh, one generation
            // command, and the trust commands
            !(old(self).files.has_file(old(self).ca_pem_file()) && old(self).files.has_file(
                old(self).ca_key_file(),
            )) ==> final(self).cli.log() == old(self).cli.log() + seq![
                (false, "sudo update-ca-certificates"@),
                (true, old(self).spec_ca_create_cmd(ca_expire_in_days as int)),
            ] + old(self).spec_trust_cmds(old(self).ca_pem_file()),
            // afterwards the trust copy always matches the certificate, so
            // the next call re-asserts without change
            final(self).files.file_at(final(self).trust_file()) == final(self).files.file_at(
                final(self).ca_pem_file(),
            ),
    {
        let pem_name = self.ca_certificate_pem.clone();
        let key_name = self.ca_certificate_key.clone();
        let ca_pem_path = self.ca_path(Some(pem_name.as_str()));
        let ca_key_path = self.ca_path(Some(key_name.as_str()));
        proof {
            reveal_strlit("/ca");
            reveal_strlit("/");
            reveal_strlit("/ca/");
            assert(ca_pem_path@ =~= self.ca_pem_file());
            assert(ca_key_path@ =~= self.ca_key_file());
        }
        if self.files.is_file(ca_key_path.as_str()) && self.files.is_file(ca_pem_path.as_str()) {
            self.trust_ca(ca_pem_path.as_str());
            proof {
                old(self).lemma_ca_paths_distinct();
            }
            return;
        }
        self.files.unlink(ca_key_path.as_str());
        self.files.unlink(ca_pem_path.as_str());
        self.un_trust_ca();
        let s1 = concat_str("/C=/ST=/O=", self.ca_certificate_organization.as_str());
        let s2 = concat_str(s1.as_str(), "/localityName=/commonName=");
        let s3 = concat_str(s2.as_str(), self.ca_certificate_common_name.as_str());
        let s4 = concat_str(s3.as_str(), "/organizationalUnitName=Developers/emailAddress=");
        let s5 = concat_str(s4.as_str(), self.certificate_dummy_email.as_str());
        let subject = concat_str(s5.as_str(), "/");
        proof {
            assert(subject@ =~= self.spec_ca_subject());
        }
        let d = u64_to_string(ca_expire_in_days as u64);
        let g1 = concat_str("openssl req -new -newkey rsa:2048 -days ", d.as_str());
        let g2 = concat_str(g1.as_str(), " -nodes -x509 -subj \"");
        let g3 = concat_str(g2.as_str(), subject.as_str());
        let g4 = concat_str(g3.as_str(), "\" -keyout \"");
        let g5 = concat_str(g4.as_str(), ca_key_path.as_str());
        let g6 = concat_str(g5.as_str(), "\" -out \"");
        let g7 = concat_str(g6.as_str(), ca_pem_path.as_str());
        let cmd = concat_str(g7.as_str(), "\"");
        proof {
            assert(cmd@ =~= self.spec_ca_create_cmd(ca_expire_in_days as int));
        }
        self.cli.run_as_user(cmd.as_str());
        // the command produces the pair on execution; record its presence
        self.files.put(ca_key_path.as_str(), "");
        self.files.put(ca_pem_path.as_str(), "");
        self.trust_ca(ca_pem_path.as_str());
        proof {
            old(self).lemma_ca_paths_distinct();
            assert(final(self).cli.log() =~= old(self).cli.log() + seq![
                (false, "sudo update-ca-certificates"@),
                (true, old(self).spec_ca_create_cmd(ca_expire_in_days as int)),
            ] + old(self).spec_trust_cmds(old(self).ca_pem_file()));
        }
    }
}


impl SiteSecure {
    /// Stages a fresh key, signing request and signed certificate for a
    /// site, with an extension configuration that embeds the subject
    /// alternative name.
    pub fn create_certificate(&mut self, url: &str, certificate_expire_in_days: i64)
        requires
            old(self).wf(),
            0 <= certificate_expire_in_days <= 36500,
        ensures
            final(self).wf(),
            final(self).config == old(self).config,
            final(self).ca_certificate_path == old(self).ca_certificate_path,
            final(self).ca_certificate_pem == old(self).ca_certificate_pem,
            final(self).ca_certificate_key == old(self).ca_certificate_key,
            final(self).ca_certificate_srl == old(self).ca_certificate_srl,
            final(self).ca_certificate_organization == old(self).ca_certificate_organization,
            final(self).ca_certificate_common_name == old(self).ca_certificate_common_name,
            final(self).certificate_dummy_email == old(self).certificate_dummy_email,
            final(self).files.has_file(old(self).crt_file(url@)),
            final(self).files.has_file(old(self).key_file(url@)),
            final(self).files.has_file(old(self).csr_file(url@)),
            final(self).files.has_file(old(self).ext_conf_file(url@)),
            final(self).files.file_at(old(self).ext_conf_file(url@)) == old(self).spec_cert_conf(
                url@,
            ),
            forall|q: Seq<char>|
                q != old(self).crt_file(url@) && q != old(self).key_file(url@) && q != old(self).csr_file(url@) && q != old(self).ext_conf_file(url@) ==> final(self).files.has_file(q) == old(self).files.has_file(q) && (old(self).files.has_file(q)
                    ==> final(self).files.file_at(q) == old(self).files.file_at(q)),
            final(self).cli.log() == old(self).cli.log() + seq![
                (true, old(self).spec_cert_req_cmd(url@)),
                (
                    true,
                    old(self).spec_cert_sign_cmd(url@, certificate_expire_in_days as int),
                ),
            ],
    {
        let pem_name = self.ca_certificate_pem.clone();
        let key_name = self.ca_certificate_key.clone();
        let srl_name = self.ca_certificate_srl.clone();
        let ca_pem_path = self.ca_path(Some(pem_name.as_str()));
        let ca_key_path = self.ca_path(Some(key_name.as_str()));
        let ca_srl_path = self.ca_path(Some(srl_name.as_str()));
        let crt_name = concat_str(url, ".crt");
        let keyf_name = concat_str(url, ".key");
        let csr_name = concat_str(url, ".csr");
        let conf_name = concat_str(url, ".conf");
        let crt_path = self.certificates_path(Some(crt_name.as_str()));
        let key_path = self.certificates_path(Some(keyf_name.as_str()));
        let csr_path = self.certificates_path(Some(csr_name.as_str()));
        let conf_path = self.certificates_path(Some(conf_name.as_str()));
        proof {
            reveal_strlit("/certificates");
            reveal_strlit("/");
            reveal_strlit("/certificates/");
            reveal_strlit("/ca");
            reveal_strlit("/ca/");
            assert(ca_pem_path@ =~= self.ca_pem_file());
            assert(ca_key_path@ =~= self.ca_key_file());
            assert(ca_srl_path@ =~= self.ca_srl_file());
            assert(crt_path@ =~= self.crt_file(url@));
            assert(key_path@ =~= self.key_file(url@));
            assert(csr_path@ =~= self.csr_file(url@));
            assert(conf_path@ =~= self.ext_conf_file(url@));
        }
        self.files.unlink(key_path.as_str());
        self.files.unlink(csr_path.as_str());
        self.files.unlink(crt_path.as_str());
        let e1 = concat_str("[dn]\nCN=", url);
        let e2 = concat_str(e1.as_str(), "\n[req]\ndistinguished_name = dn\n[EXT]\nsubjectAltName=DNS:");
        let e3 = concat_str(e2.as_str(), url);
        let e4 = concat_str(
            e3.as_str(),
            "\nkeyUsage=digitalSignature\nextendedKeyUsage=serverAuth\n[x509_ext]\nsubjectAltName=DNS:",
        );
        let e5 = concat_str(e4.as_str(), url);
        let conf = concat_str(e5.as_str(), "\n");
        proof {
            assert(conf@ =~= self.spec_cert_conf(url@));
        }
        self.files.put(conf_path.as_str(), conf.as_str());
        let r1 = concat_str("openssl req -new -newkey rsa:2048 -sha256 -nodes -keyout \"", key_path.as_str());
        let r2 = concat_str(r1.as_str(), "\" -subj \"/CN=");
        let r3 = concat_str(r2.as_str(), url);
        let r4 = concat_str(r3.as_str(), "\" -out \"");
        let r5 = concat_str(r4.as_str(), csr_path.as_str());
        let r6 = concat_str(r5.as_str(), "\" -config \"");
        let r7 = concat_str(r6.as_str(), conf_path.as_str());
        let req_cmd = concat_str(r7.as_str(), "\"");
        self.cli.run_as_user(req_cmd.as_str());
        let d = u64_to_string(certificate_expire_in_days as u64);
        let x1 = concat_str("openssl x509 -req -sha256 -in \"", csr_path.as_str());
        let x2 = concat_str(x1.as_str(), "\" -CA \"");
        let x3 = concat_str(x2.as_str(), ca_pem_path.as_str());
        let x4 = concat_str(x3.as_str(), "\" -CAkey \"");
        let x5 = concat_str(x4.as_str(), ca_key_path.as_str());
        let x6 = concat_str(x5.as_str(), "\" -CAcreateserial -CAserial \"");
        let x7 = concat_str(x6.as_str(), ca_srl_path.as_str());
        let x8 = concat_str(x7.as_str(), "\" -out \"");
        let x9 = concat_str(x8.as_str(), crt_path.as_str());
        let x10 = concat_str(x9.as_str(), "\" -days ");
        let x11 = concat_str(x10.as_str(), d.as_str());
        let x12 = concat_str(x11.as_str(), " -extfile \"");
        let x13 = concat_str(x12.as_str(), conf_path.as_str());
        let sign_cmd = concat_str(x13.as_str(), "\" -extensions x509_ext");
        self.cli.run_as_user(sign_cmd.as_str());
        proof {
            assert(req_cmd@ =~= self.spec_cert_req_cmd(url@));
            assert(sign_cmd@ =~= self.spec_cert_sign_cmd(
                url@,
                certificate_expire_in_days as int,
            ));
        }
        proof {
            self.lemma_cert_files_distinct(url@);
        }
        // the commands produce these files on execution
        self.files.put(key_path.as_str(), "");
        self.files.put(csr_path.as_str(), "");
        self.files.put(crt_path.as_str(), "");
        proof {
            assert(final(self).cli.log() =~= old(self).cli.log() + seq![
                (true, old(self).spec_cert_req_cmd(url@)),
                (
                    true,
                    old(self).spec_cert_sign_cmd(url@, certificate_expire_in_days as int),
                ),
            ]);
        }
    }

    /// Secures a site: recovers its kind (from the seed, or its existing
    /// file, defaulting to plain), guarantees the trusted root, stages a
    /// fresh leaf certificate, and writes the secure variant of the
    /// site's generated file. On failure nothing is changed.
    pub fn secure(&mut self, url: &str, stub: Option<&str>) -> (r: Result<(), ValetError>)
        requires
            old(self).wf(),
        ensures
            final(self).wf(),
            final(self).config == old(self).config,
            final(self).ca_certificate_path == old(self).ca_certificate_path,
            final(self).ca_certificate_pem == old(self).ca_certificate_pem,
            final(self).ca_certificate_key == old(self).ca_certificate_key,
            final(self).ca_certificate_srl == old(self).ca_certificate_srl,
            final(self).ca_certificate_organization == old(self).ca_certificate_organization,
            final(self).ca_certificate_common_name == old(self).ca_certificate_common_name,
            final(self).certificate_dummy_email == old(self).certificate_dummy_email,
            // success is owed exactly for a usable hostname whose kind can
            // be recovered with usable parameters
            r is Err <==> (!value_ok(url@) || ({
                let p = old(self).spec_prepared(
                    url@,
                    match stub {
                        Option::Some(s) => Option::Some(s@),
                        Option::None => Option::<Seq<char>>::None,
                    },
                );
                p is None || !kind_ok(p.unwrap())
            })),
            r is Err ==> r->Err_0 is ParseFailure || r->Err_0 is ValidationFailure,
            // a fresh key, request and one-year signing are always staged;
            // with a root pair on disk no generation command is added
            r is Ok && old(self).files.has_file(old(self).ca_pem_file()) && old(
                self,
            ).files.has_file(old(self).ca_key_file()) ==> final(self).cli.log() == old(
                self,
            ).cli.log() + old(self).spec_trust_cmds(old(self).ca_pem_file()) + seq![
                (true, old(self).spec_cert_req_cmd(url@)),
                (true, old(self).spec_cert_sign_cmd(url@, 365)),
            ],
            r is Ok && !(old(self).files.has_file(old(self).ca_pem_file()) && old(
                self,
            ).files.has_file(old(self).ca_key_file())) ==> final(self).cli.log() == old(
                self,
            ).cli.log() + seq![
                (false, "sudo update-ca-certificates"@),
                (true, old(self).spec_ca_create_cmd(7300)),
            ] + old(self).spec_trust_cmds(old(self).ca_pem_file()) + seq![
                (true, old(self).spec_cert_req_cmd(url@)),
                (true, old(self).spec_cert_sign_cmd(url@, 365)),
            ],
            match r {
                Ok(()) => {
                    &&& final(self).files.has_file(old(self).crt_file(url@))
                    &&& final(self).files.has_file(old(self).key_file(url@))
                    &&& final(self).files.has_file(old(self).csr_file(url@))
                    &&& final(self).files.has_file(old(self).ext_conf_file(url@))
                    &&& final(self).files.file_at(old(self).ext_conf_file(url@)) == old(self).spec_cert_conf(url@)
                    &&& final(self).files.has_file(old(self).ca_pem_file())
                    &&& final(self).files.has_file(old(self).ca_key_file())
                    &&& final(self).files.has_file(old(self).trust_file())
                    &&& final(self).files.has_file(old(self).site_file(url@))
                    &&& final(self).files.file_at(old(self).site_file(url@)) == spec_rendered(
                        old(self).spec_prepared(
                            url@,
                            match stub {
                                Option::Some(s) => Option::Some(s@),
                                Option::None => Option::<Seq<char>>::None,
                            },
                        ).unwrap(),
                        true,
                        old(self).spec_params(url@),
                    )
                    // every other hostname's files, and everything else,
                    // are untouched
                    &&& forall|q: Seq<char>|
                        q != old(self).site_file(url@) && q != old(self).crt_file(url@) && q
                            != old(self).key_file(url@) && q != old(self).csr_file(url@) && q
                            != old(self).ext_conf_file(url@) && q != old(self).ca_pem_file()
                            && q != old(self).ca_key_file() && q != old(self).trust_file()
                            ==> final(self).files.has_file(q) == old(self).files.has_file(q)
                            && (old(self).files.has_file(q) ==> final(self).files.file_at(q)
                            == old(self).files.file_at(q))
                    // a pre-existing root pair is never regenerated
                    &&& (old(self).files.has_file(old(self).ca_pem_file()) && old(self).files.has_file(old(self).ca_key_file()) ==> final(self).files.file_at(
                        old(self).ca_pem_file(),
                    ) == old(self).files.file_at(old(self).ca_pem_file()) && final(self).files.file_at(old(self).ca_key_file()) == old(self).files.file_at(
                        old(self).ca_key_file(),
                    ))
                },
                Err(e) => *final(self) == *old(self),
            },
    {
        if !Self::check_value(url) {
            return Err(ValetError::ValidationFailure("the hostname is not usable".to_owned()));
        }
        let kind = match self.prepare_conf(url, stub) {
            Ok(k) => k,
            Err(e) => {
                return Err(e);
            },
        };
        let ca_dir = self.ca_path(None);
        let cert_dir = self.certificates_path(None);
        let ghost before_dirs = self.files;
        self.files.ensure_dir_exists(ca_dir.as_str(), self.config.valet.user.as_str(), 0o775);
        self.files.ensure_dir_exists(cert_dir.as_str(), self.config.valet.user.as_str(), 0o775);
        proof {
            ValetFilesystem::lemma_same_file_table(self.files, before_dirs);
        }
        let ca_days = self.calculate_expiry_days(7300);
        let ghost at_ca = *self;
        self.create_ca(ca_days);
        let cert_days = self.calculate_expiry_days(365);
        let ghost at_cert = *self;
        self.create_certificate(url, cert_days);
        let params = self.render_params_for(url);
        let content = render(&kind, true, &params);
        let site_path = self.nginx_path(url);
        proof {
            self.lemma_site_cert_distinct(url@, url@);
            self.lemma_site_ca_distinct(url@);
            self.lemma_cert_ca_distinct(url@);
            self.lemma_ca_paths_distinct();
        }
        self.files.put(site_path.as_str(), content.as_str());
        proof {
            // the staged commands are the root assertion followed by the
            // fresh request and signing
            assert(at_ca.cli.log() == old(self).cli.log());
            assert(at_ca.files.has_file(at_ca.ca_pem_file()) == old(self).files.has_file(
                old(self).ca_pem_file(),
            ));
            assert(at_ca.files.has_file(at_ca.ca_key_file()) == old(self).files.has_file(
                old(self).ca_key_file(),
            ));
            if old(self).files.has_file(old(self).ca_pem_file()) && old(self).files.has_file(
                old(self).ca_key_file(),
            ) {
                assert(final(self).cli.log() =~= old(self).cli.log() + old(self).spec_trust_cmds(
                    old(self).ca_pem_file(),
                ) + seq![
                    (true, old(self).spec_cert_req_cmd(url@)),
                    (true, old(self).spec_cert_sign_cmd(url@, 365)),
                ]);
            } else {
                assert(final(self).cli.log() =~= old(self).cli.log() + seq![
                    (false, "sudo update-ca-certificates"@),
                    (true, old(self).spec_ca_create_cmd(7300)),
                ] + old(self).spec_trust_cmds(old(self).ca_pem_file()) + seq![
                    (true, old(self).spec_cert_req_cmd(url@)),
                    (true, old(self).spec_cert_sign_cmd(url@, 365)),
                ]);
            }
        }
        Ok(())
    }

    /// Removes a site's certificate and credential files; when asked to
    /// preserve the configuration, first recovers the site's kind and
    /// writes the unsecured variant in place of the secure one. Removing
    /// a site that has no certificate is a no-op.
    pub fn unsecure(&mut self, url: &str, preserve_unsecure_config: bool) -> (r: Result<
        (),
        ValetError,
    >)
        requires
            old(self).wf(),
        ensures
            final(self).wf(),
            final(self).config == old(self).config,
            final(self).ca_certificate_path == old(self).ca_certificate_path,
            final(self).ca_certificate_pem == old(self).ca_certificate_pem,
            final(self).ca_certificate_key == old(self).ca_certificate_key,
            final(self).ca_certificate_srl == old(self).ca_certificate_srl,
            final(self).ca_certificate_organization == old(self).ca_certificate_organization,
            final(self).ca_certificate_common_name == old(self).ca_certificate_common_name,
            final(self).certificate_dummy_email == old(self).certificate_dummy_email,
            // failure comes exactly for an unusable hostname, or when the
            // kind must be preserved but cannot be recovered or is unusable
            r is Err <==> (!value_ok(url@) || (old(self).files.has_file(old(self).crt_file(url@))
                && preserve_unsecure_config && ({
                let p = old(self).spec_prepared(url@, Option::<Seq<char>>::None);
                p is None || !kind_ok(p.unwrap())
            }))),
            r is Err ==> r->Err_0 is ParseFailure || r->Err_0 is ValidationFailure,
            match r {
                Ok(()) => {
                    &&& !final(self).files.has_file(old(self).crt_file(url@))
                    &&& (old(self).files.has_file(old(self).crt_file(url@))
                        ==> !final(self).files.has_file(old(self).key_file(url@))
                        && !final(self).files.has_file(old(self).csr_file(url@))
                        && !final(self).files.has_file(old(self).ext_conf_file(url@)))
                    &&& (old(self).files.has_file(old(self).crt_file(url@))
                        && !preserve_unsecure_config ==> !final(self).files.has_file(
                        old(self).site_file(url@),
                    ))
                    &&& (old(self).files.has_file(old(self).crt_file(url@))
                        && preserve_unsecure_config ==> final(self).files.has_file(
                        old(self).site_file(url@),
                    ) && final(self).files.file_at(old(self).site_file(url@)) == spec_rendered(
                        old(self).spec_prepared(url@, Option::<Seq<char>>::None).unwrap(),
                        false,
                        old(self).spec_params(url@),
                    ))
                    &&& (!old(self).files.has_file(old(self).crt_file(url@)) ==> *final(self)
                        == *old(self))
                    &&& forall|q: Seq<char>|
                        q != old(self).site_file(url@) && q != old(self).crt_file(url@) && q
                            != old(self).key_file(url@) && q != old(self).csr_file(url@) && q
                            != old(self).ext_conf_file(url@) ==> final(self).files.has_file(q)
                            == old(self).files.has_file(q) && (old(self).files.has_file(q)
                            ==> final(self).files.file_at(q) == old(self).files.file_at(q))
                },
                Err(e) => *final(self) == *old(self),
            },
    {
        if !Self::check_value(url) {
            return Err(ValetError::ValidationFailure("the hostname is not usable".to_owned()));
        }
        let crt_name = concat_str(url, ".crt");
        let crt_path = self.certificates_path(Some(crt_name.as_str()));
        proof {
            reveal_strlit("/certificates");
            reveal_strlit("/");
            reveal_strlit("/certificates/");
            assert(crt_path@ =~= self.crt_file(url@));
        }
        if !self.files.is_file(crt_path.as_str()) {
            return Ok(());
        }
        let kind: Option<SiteKind> = if preserve_unsecure_config {
            match self.prepare_conf(url, None) {
                Ok(k) => Some(k),
                Err(e) => {
                    return Err(e);
                },
            }
        } else {
            None
        };
        let keyf_name = concat_str(url, ".key");
        let csr_name = concat_str(url, ".csr");
        let conf_name = concat_str(url, ".conf");
        let key_path = self.certificates_path(Some(keyf_name.as_str()));
        let csr_path = self.certificates_path(Some(csr_name.as_str()));
        let conf_path = self.certificates_path(Some(conf_name.as_str()));
        let site_path = self.nginx_path(url);
        proof {
            assert(key_path@ =~= self.key_file(url@));
            assert(csr_path@ =~= self.csr_file(url@));
            assert(conf_path@ =~= self.ext_conf_file(url@));
        }
        self.files.unlink(site_path.as_str());
        self.files.unlink(conf_path.as_str());
        self.files.unlink(key_path.as_str());
        self.files.unlink(csr_path.as_str());
        self.files.unlink(crt_path.as_str());
        proof {
            self.lemma_site_cert_distinct(url@, url@);
        }
        if let Some(k) = kind {
            let params = self.render_params_for(url);
            let content = render(&k, false, &params);
            self.files.put(site_path.as_str(), content.as_str());
        }
        Ok(())
    }

    /// `v` is already listed.
    fn name_listed(out: &Vec<String>, v: &str) -> (r: bool)
        ensures
            r == exists|i: int| 0 <= i < out@.len() && (#[trigger] out@[i])@ == v@,
    {
        let n = out.len();
        let mut i: usize = 0;
        while i < n
            invariant
                n == out@.len(),
                i <= n,
                forall|j: int| 0 <= j < i ==> (#[trigger] out@[j])@ != v@,
            decreases n - i,
        {
            if str_eq(out[i].as_str(), v) {
                return true;
            }
            i += 1;
        }
        false
    }

    /// The hostnames with an on-disk certificate: the names of the
    /// `.crt` files in the certificate directory, extension stripped,
    /// each listed once.
    pub fn secured(&self) -> (r: Vec<String>)
        requires
            self.wf(),
        ensures
            forall|i: int|
                0 <= i < r@.len() ==> self.files.has_file(
                    self.crt_file((#[trigger] r@[i])@),
                ) && r@[i]@.len() > 0 && !contains_seq(r@[i]@, "/"@),
            forall|i: int, j: int| 0 <= i < j < r@.len() ==> (#[trigger] r@[i])@ != (#[trigger] r@[j])@,
            forall|u: Seq<char>|
                !contains_seq(u, "/"@) && u.len() > 0 && #[trigger] self.files.has_file(
                    self.crt_file(u),
                ) ==> exists|i: int| 0 <= i < r@.len() && (#[trigger] r@[i])@ == u,
    {
        proof {
            reveal_strlit("/certificates");
            reveal_strlit("/");
            reveal_strlit("/certificates/");
            reveal_strlit(".crt");
            reveal_strlit(".keep");
        }
        let cert_dir = self.certificates_path(None);
        let entries = match self.files.scandir(cert_dir.as_str()) {
            Ok(v) => v,
            Err(_) => Vec::new(),
        };
        let mut out: Vec<String> = Vec::new();
        let n = entries.len();
        let mut i: usize = 0;
        while i < n
            invariant
                self.wf(),
                n == entries@.len(),
                i <= n,
                cert_dir@ == self.home() + "/certificates"@,
                forall|k: int|
                    0 <= k < entries@.len() ==> self.files.has_entry(
                        cert_dir@ + "/"@ + (#[trigger] entries@[k])@,
                    ) && !contains_seq(entries@[k]@, "/"@) && entries@[k]@.len() > 0,
                forall|k: int|
                    0 <= k < out@.len() ==> self.files.has_file(
                        self.crt_file((#[trigger] out@[k])@),
                    ) && out@[k]@.len() > 0 && !contains_seq(out@[k]@, "/"@),
                forall|k: int, l: int|
                    0 <= k < l < out@.len() ==> (#[trigger] out@[k])@ != (#[trigger] out@[l])@,
                forall|k: int|
                    0 <= k < i ==> ((exists|u: Seq<char>|
                        (#[trigger] entries@[k])@ == u + ".crt"@ && u.len() > 0
                            && self.files.has_file(self.crt_file(u))) ==> exists|j: int|
                        0 <= j < out@.len() && (#[trigger] out@[j])@ + ".crt"@ == entries@[k]@),
            decreases n - i,
        {
            proof {
                reveal_strlit("/certificates");
                reveal_strlit("/");
                reveal_strlit("/certificates/");
                reveal_strlit(".crt");
                reveal_strlit(".keep");
            }
            let ghost pre_out = out@;
            let name = &entries[i];
            let name_len = name.as_str().unicode_len();
            if ends_with(name.as_str(), ".crt") && name_len > 4 {
                let stem = name.as_str().substring_char(0, name_len - 4);
                let full = self.certificates_path(Some(name.as_str()));
                if self.files.is_file(full.as_str()) && !Self::name_listed(&out, stem) {
                    proof {
                        assert(stem@ + ".crt"@ =~= name@);
                        assert(full@ =~= self.crt_file(stem@));
                    }
                    proof {
                        assert(!contains_seq(stem@, "/"@)) by {
                            assert forall|j: int| !crate::strutil::occurs_at(
                                stem@,
                                "/"@,
                                j,
                            ) by {
                                if 0 <= j && j + 1 <= stem@.len() {
                                    if stem@.subrange(j, j + 1) == "/"@ {
                                        assert(name@.subrange(j, j + 1) =~= stem@.subrange(
                                            j,
                                            j + 1,
                                        ));
                                        assert(crate::strutil::occurs_at(name@, "/"@, j));
                                    }
                                }
                            }
                        }
                    }
                    out.push(stem.to_owned());
                    proof {
                        assert(out@[out@.len() - 1]@ == stem@);
                        assert(out@[out@.len() - 1]@ + ".crt"@ == entries@[i as int]@);
                        assert(exists|j: int|
                            0 <= j < out@.len() && (#[trigger] out@[j])@ + ".crt"@
                                == entries@[i as int]@);
                    }
                } else if self.files.is_file(full.as_str()) {
                    proof {
                        assert(stem@ + ".crt"@ =~= name@);
                        let j = choose|j: int|
                            0 <= j < out@.len() && (#[trigger] out@[j])@ == stem@;
                        assert(out@[j]@ + ".crt"@ == entries@[i as int]@);
                        assert(exists|j2: int|
                            0 <= j2 < out@.len() && (#[trigger] out@[j2])@ + ".crt"@
                                == entries@[i as int]@);
                    }
                } else {
                    proof {
                        if exists|u: Seq<char>|
                            name@ == u + ".crt"@ && u.len() > 0 && self.files.has_file(
                                self.crt_file(u),
                            ) {
                            let u = choose|u: Seq<char>|
                                name@ == u + ".crt"@ && u.len() > 0 && self.files.has_file(
                                    self.crt_file(u),
                                );
                            assert(stem@ =~= u);
                            assert(full@ =~= self.crt_file(u));
                            assert(false);
                        }
                    }
                }
            } else {
                proof {
                    if exists|u: Seq<char>|
                        name@ == u + ".crt"@ && u.len() > 0 && self.files.has_file(
                            self.crt_file(u),
                        ) {
                        let u = choose|u: Seq<char>|
                            name@ == u + ".crt"@ && u.len() > 0 && self.files.has_file(
                                self.crt_file(u),
                            );
                        assert(name@.len() == u.len() + 4);
                        assert(name@.subrange(name@.len() - 4, name@.len() as int) =~= ".crt"@);
                        assert(false);
                    }
                }
            }
            proof {
                assert forall|k: int|
                    0 <= k < i + 1 implies ((exists|u: Seq<char>|
                    (#[trigger] entries@[k])@ == u + ".crt"@ && u.len() > 0
                        && self.files.has_file(self.crt_file(u))) ==> exists|j: int|
                    0 <= j < out@.len() && (#[trigger] out@[j])@ + ".crt"@ == entries@[k]@) by {
                    if k < i {
                        if exists|u: Seq<char>|
                            (entries@[k])@ == u + ".crt"@ && u.len() > 0 && self.files.has_file(
                                self.crt_file(u),
                            ) {
                            let j = choose|j: int|
                                0 <= j < pre_out.len() && (#[trigger] pre_out[j])@ + ".crt"@
                                    == entries@[k]@;
                            assert(out@[j] == pre_out[j]);
                            assert(out@[j]@ + ".crt"@ == entries@[k]@);
                        }
                    }
                }
            }
            i += 1;
        }
        proof {
            reveal_strlit("/certificates");
            reveal_strlit("/");
            reveal_strlit("/certificates/");
            reveal_strlit(".crt");
            reveal_strlit(".keep");
            assert forall|u: Seq<char>|
                !contains_seq(u, "/"@) && u.len() > 0 && #[trigger] self.files.has_file(
                    self.crt_file(u),
                ) implies exists|i2: int| 0 <= i2 < out@.len() && (#[trigger] out@[i2])@ == u by {
                let nm = u + ".crt"@;
                assert(self.crt_file(u) =~= cert_dir@ + "/"@ + nm);
                assert(lacks_char(u, '/')) by {
                    assert forall|j: int| 0 <= j < u.len() implies u[j] != '/' by {
                        if u[j] == '/' {
                            assert(u.subrange(j, j + 1) =~= "/"@);
                            assert(crate::strutil::occurs_at(u, "/"@, j));
                        }
                    }
                }
                assert(!contains_seq(nm, "/"@)) by {
                    assert(lacks_char(".crt"@, '/'));
                    crate::strutil::lemma_lacks_concat(u, ".crt"@, '/');
                    crate::strutil::lemma_lacks_absent(nm, "/"@, 0);
                }
                assert(nm != ".keep"@) by {
                    reveal_strlit(".keep");
                    assert(nm[nm.len() - 4] == '.');
                }
                assert(self.files.has_entry(cert_dir@ + "/"@ + nm));
                let k = choose|k: int|
                    0 <= k < entries@.len() && (#[trigger] entries@[k])@ == nm;
                assert(exists|uu: Seq<char>|
                    (entries@[k])@ == uu + ".crt"@ && uu.len() > 0 && self.files.has_file(
                        self.crt_file(uu),
                    ));
                let j = choose|j: int|
                    0 <= j < out@.len() && (#[trigger] out@[j])@ + ".crt"@ == entries@[k]@;
                crate::strutil::lemma_concat_cancel_right(out@[j]@, u, ".crt"@);
            }
        }
        out
    }
}


impl SiteSecure {
    /// Paths of generated site files determine their hostname.
    pub proof fn lemma_site_injective(self, a: Seq<char>, b: Seq<char>)
        requires
            self.site_file(a) == self.site_file(b),
        ensures
            a == b,
    {
        let pre = self.home() + "/nginx/"@;
        assert(pre + a =~= self.site_file(a));
        assert(pre + b =~= self.site_file(b));
        crate::strutil::lemma_concat_cancel_left(pre, a, b);
    }

    /// The certificate and generated file of `a` are distinct from every
    /// per-site file of another hostname `b` and from the root pair.
    pub proof fn lemma_rename_claim_clear(self, a: Seq<char>, b: Seq<char>)
        requires
            self.wf(),
            a != b,
        ensures
            self.crt_file(a) != self.site_file(b),
            self.crt_file(a) != self.crt_file(b),
            self.crt_file(a) != self.key_file(b),
            self.crt_file(a) != self.csr_file(b),
            self.crt_file(a) != self.ext_conf_file(b),
            self.site_file(a) != self.site_file(b),
            self.site_file(a) != self.crt_file(b),
            self.site_file(a) != self.key_file(b),
            self.site_file(a) != self.csr_file(b),
            self.site_file(a) != self.ext_conf_file(b),
            self.crt_file(a) != self.ca_pem_file(),
            self.crt_file(a) != self.ca_key_file(),
            self.site_file(a) != self.ca_pem_file(),
            self.site_file(a) != self.ca_key_file(),
    {
        self.lemma_site_cert_distinct(b, a);
        self.lemma_site_cert_distinct(a, b);
        if self.crt_file(a) == self.crt_file(b) {
            self.lemma_crt_injective(a, b);
        }
        self.lemma_crt_kinds_distinct(a, b);
        if self.site_file(a) == self.site_file(b) {
            self.lemma_site_injective(a, b);
        }
        self.lemma_cert_ca_distinct(a);
        self.lemma_site_ca_distinct(a);
    }

    /// A site is re-rendered by the regeneration: it is secured under a
    /// usable single-name path and its kind can be recovered with usable
    /// parameters.
    pub open spec fn spec_regenerated(self, u: Seq<char>) -> bool {
        &&& self.files.has_file(self.crt_file(u))
        &&& !contains_seq(u, "/"@)
        &&& u.len() > 0
        &&& value_ok(u)
        &&& ({
            let p = self.spec_prepared(u, Option::<Seq<char>>::None);
            p is Some && kind_ok(p.unwrap())
        })
    }

    /// Outside the first `i` listed sites' generated files, `now` agrees
    /// with the file table of `pre`.
    pub open spec fn files_untouched_outside_listed(
        pre: SiteSecure,
        now: ValetFilesystem,
        urls: Seq<String>,
        i: int,
    ) -> bool {
        forall|q: Seq<char>|
            (forall|k: int| 0 <= k < i ==> q != pre.site_file((#[trigger] urls[k])@))
                ==> #[trigger] now.has_file(q) == pre.files.has_file(q) && (pre.files.has_file(q)
                ==> now.file_at(q) == pre.files.file_at(q))
    }

    /// Every file the regeneration touches is a re-rendered site's
    /// generated file: any other file of `pre` stays byte-identical in
    /// `now`.
    #[verifier::opaque]
    pub open spec fn modifies_only_regenerated(pre: SiteSecure, now: ValetFilesystem) -> bool {
        forall|q: Seq<char>|
            (#[trigger] now.has_file(q) != pre.files.has_file(q) || (pre.files.has_file(q)
                && now.has_file(q) && now.file_at(q) != pre.files.file_at(q))) ==> exists|u: Seq<char>|
                pre.spec_regenerated(u) && q == #[trigger] pre.site_file(u)
    }

    /// Renders the secure variant of every secured site's file afresh
    /// from its recovered kind, best effort: a site whose kind cannot be
    /// recovered or whose recovered parameters are unusable is skipped.
    #[verifier::rlimit(100)]
    pub fn regenerate_secured_sites_config(&mut self)
        requires
            old(self).wf(),
        ensures
            final(self).wf(),
            final(self).config == old(self).config,
            forall|u: Seq<char>|
                #[trigger] old(self).spec_regenerated(u) ==> final(self).files.has_file(
                    old(self).site_file(u),
                ) && final(self).files.file_at(old(self).site_file(u)) == spec_rendered(
                    old(self).spec_prepared(u, Option::<Seq<char>>::None).unwrap(),
                    true,
                    old(self).spec_params(u),
                ),
            // no file outside the re-rendered sites' files is modified
            Self::modifies_only_regenerated(*old(self), final(self).files),
    {
        let urls = self.secured();
        proof {
            reveal(SiteSecure::modifies_only_regenerated);
            assert(Self::modifies_only_regenerated(*old(self), self.files));
        }
        let n = urls.len();
        let mut i: usize = 0;
        while i < n
            invariant
                self.wf(),
                self.config == old(self).config,
                n == urls@.len(),
                i <= n,
                forall|k: int|
                    0 <= k < n ==> old(self).files.has_file(
                        old(self).crt_file((#[trigger] urls@[k])@),
                    ) && urls@[k]@.len() > 0 && !contains_seq(urls@[k]@, "/"@),
                forall|k: int, l: int|
                    0 <= k < l < n ==> (#[trigger] urls@[k])@ != (#[trigger] urls@[l])@,
                // processed sites carry their fresh rendering
                forall|u: Seq<char>|
                    #[trigger] old(self).spec_regenerated(u) && (exists|k: int|
                        0 <= k < i && (#[trigger] urls@[k])@ == u) ==> self.files.has_file(
                        old(self).site_file(u),
                    ) && self.files.file_at(old(self).site_file(u)) == spec_rendered(
                        old(self).spec_prepared(u, Option::<Seq<char>>::None).unwrap(),
                        true,
                        old(self).spec_params(u),
                    ),
                // everything outside the processed sites' files is
                // untouched, so this iteration reads the initial contents
                Self::files_untouched_outside_listed(*old(self), self.files, urls@, i as int),
                Self::modifies_only_regenerated(*old(self), self.files),
            decreases n - i,
        {
            let url = urls[i].as_str();
            let ghost pre = *self;
            let site_path = self.nginx_path(url);
            proof {
                assert(site_path@ == old(self).site_file(urls@[i as int]@));
                // this iteration's file differs from every processed one,
                // so it still holds its initial contents
                assert forall|k: int|
                    0 <= k < i implies site_path@ != old(self).site_file(
                    (#[trigger] urls@[k])@,
                ) by {
                    if site_path@ == old(self).site_file(urls@[k]@) {
                        old(self).lemma_site_injective(urls@[i as int]@, urls@[k]@);
                    }
                }
                assert(Self::files_untouched_outside_listed(
                    *old(self),
                    pre.files,
                    urls@,
                    i as int,
                ));
                assert(pre.files.has_file(site_path@) == old(self).files.has_file(site_path@));
                assert(old(self).files.has_file(site_path@) ==> pre.files.file_at(site_path@)
                    == old(self).files.file_at(site_path@));
                assert(old(self).spec_prepared(urls@[i as int]@, Option::<Seq<char>>::None)
                    == pre.spec_prepared(urls@[i as int]@, Option::<Seq<char>>::None));
            }
            let mut wrote: bool = false;
            if Self::check_value(url) {
                match self.prepare_conf(url, None) {
                    Ok(kind) => {
                        proof {
                            // the file read here is the untouched initial one,
                            // so this site counts as re-rendered from the start
                            assert(old(self).spec_regenerated(urls@[i as int]@));
                        }
                        let params = self.render_params_for(url);
                        let content = render(&kind, true, &params);
                        self.files.put(site_path.as_str(), content.as_str());
                        wrote = true;
                    },
                    Err(_) => {
                    },
                }
            }
            proof {
                assert forall|u: Seq<char>|
                    #[trigger] old(self).spec_regenerated(u) && (exists|k: int|
                        0 <= k < i + 1 && (#[trigger] urls@[k])@ == u) implies self.files.has_file(
                    old(self).site_file(u),
                ) && self.files.file_at(old(self).site_file(u)) == spec_rendered(
                    old(self).spec_prepared(u, Option::<Seq<char>>::None).unwrap(),
                    true,
                    old(self).spec_params(u),
                ) by {
                    if old(self).site_file(u) == old(self).site_file(urls@[i as int]@) {
                        old(self).lemma_site_injective(u, urls@[i as int]@);
                    }
                }
                assert(Self::files_untouched_outside_listed(
                    *old(self),
                    self.files,
                    urls@,
                    i + 1,
                )) by {
                    assert forall|q: Seq<char>|
                        (forall|k: int|
                            0 <= k < i + 1 ==> q != old(self).site_file((#[trigger] urls@[k])@))
                            implies #[trigger] self.files.has_file(q) == old(
                        self,
                    ).files.has_file(q) && (old(self).files.has_file(q) ==> self.files.file_at(q)
                        == old(self).files.file_at(q)) by {
                        assert(forall|k: int|
                            0 <= k < i ==> q != old(self).site_file((#[trigger] urls@[k])@));
                        assert(Self::files_untouched_outside_listed(
                            *old(self),
                            pre.files,
                            urls@,
                            i as int,
                        ));
                        assert(pre.files.has_file(q) == old(self).files.has_file(q));
                        assert(old(self).files.has_file(q) ==> pre.files.file_at(q) == old(
                            self,
                        ).files.file_at(q));
                        assert(q != site_path@);
                    }
                }
                assert(Self::modifies_only_regenerated(*old(self), self.files)) by {
                    reveal(SiteSecure::modifies_only_regenerated);
                    assert forall|q: Seq<char>|
                        (#[trigger] self.files.has_file(q) != old(self).files.has_file(q) || (
                        old(self).files.has_file(q) && self.files.has_file(q)
                            && self.files.file_at(q) != old(self).files.file_at(
                            q,
                        ))) implies exists|u: Seq<char>|
                        old(self).spec_regenerated(u) && q == #[trigger] old(self).site_file(
                            u,
                        ) by {
                        if pre.files.has_file(q) != old(self).files.has_file(q) || (old(
                            self,
                        ).files.has_file(q) && pre.files.has_file(q) && pre.files.file_at(q)
                            != old(self).files.file_at(q)) {
                            assert(Self::modifies_only_regenerated(*old(self), pre.files));
                        } else {
                            // this iteration changed `q`, so `q` is this
                            // site's generated file
                            assert(wrote && q == old(self).site_file(urls@[i as int]@));
                            assert(old(self).spec_regenerated(urls@[i as int]@));
                        }
                    }
                }
            }
            i += 1;
        }
        proof {
            assert forall|u: Seq<char>|
                #[trigger] old(self).spec_regenerated(u) implies final(self).files.has_file(
                old(self).site_file(u),
            ) && final(self).files.file_at(old(self).site_file(u)) == spec_rendered(
                old(self).spec_prepared(u, Option::<Seq<char>>::None).unwrap(),
                true,
                old(self).spec_params(u),
            ) by {
                assert(old(self).files.has_file(old(self).crt_file(u)));
                let k = choose|k: int| 0 <= k < urls@.len() && (#[trigger] urls@[k])@ == u;
            }
        }
    }

    /// `u` is renamed away by a rename from `old_domain` to `domain`: it
    /// is secured under a usable single-name path, and no secured
    /// hostname of the batch is renamed onto it.
    pub open spec fn spec_renamed_away(
        self,
        u: Seq<char>,
        old_domain: Seq<char>,
        domain: Seq<char>,
    ) -> bool {
        &&& self.files.has_file(self.crt_file(u))
        &&& !contains_seq(u, "/"@)
        &&& u.len() > 0
        &&& value_ok(u)
        &&& self.crt_file(u) != self.trust_file()
        &&& forall|v: Seq<char>|
            #[trigger] self.files.has_file(self.crt_file(v)) && !contains_seq(v, "/"@)
                && v.len() > 0 ==> crate::strutil::spec_replace(
                v,
                "."@ + old_domain,
                "."@ + domain,
            ) != u
    }

    /// The hostname `u` becomes under a rename from `old_domain` to
    /// `domain`: every `.old_domain` occurrence is replaced.
    pub open spec fn spec_renamed(u: Seq<char>, old_domain: Seq<char>, domain: Seq<char>) -> Seq<
        char,
    > {
        crate::strutil::spec_replace(u, "."@ + old_domain, "."@ + domain)
    }

    /// `u` is a rename source: secured under a usable single-segment
    /// hostname.
    pub open spec fn spec_rename_source(self, u: Seq<char>) -> bool {
        &&& self.files.has_file(self.crt_file(u))
        &&& !contains_seq(u, "/"@)
        &&& u.len() > 0
        &&& value_ok(u)
    }

    /// `u` is renamed cleanly: it is a source with a generated file, the
    /// renamed hostname is usable, no other source collides with `u` or
    /// with its renamed hostname, the renamed hostname is not itself
    /// another source, and the paths involved stay clear of the trust
    /// store.
    #[verifier::opaque]
    pub open spec fn spec_renamed_cleanly(
        self,
        u: Seq<char>,
        old_domain: Seq<char>,
        domain: Seq<char>,
    ) -> bool {
        let u2 = Self::spec_renamed(u, old_domain, domain);
        &&& self.spec_rename_source(u)
        &&& value_ok(u2)
        &&& self.files.has_file(self.site_file(u))
        &&& self.crt_file(u2) != self.trust_file()
        &&& self.site_file(u2) != self.trust_file()
        &&& self.site_file(u) != self.trust_file()
        &&& (forall|v: Seq<char>|
            #[trigger] self.spec_rename_source(v) && v != u ==> Self::spec_renamed(
                v,
                old_domain,
                domain,
            ) != u2 && Self::spec_renamed(v, old_domain, domain) != u)
        &&& (self.spec_rename_source(u2) ==> u2 == u)
    }

    /// The rename's outcome for a source `u`: whenever the old file with
    /// the hostname substituted recovers to a usable kind, the renamed
    /// hostname ends secured — it holds a certificate, and its generated
    /// file is the secure rendering of that recovered kind, the proxy
    /// target carried through.
    #[verifier::opaque]
    pub open spec fn spec_renamed_established(
        pre: SiteSecure,
        now: ValetFilesystem,
        u: Seq<char>,
        old_domain: Seq<char>,
        domain: Seq<char>,
    ) -> bool {
        let u2 = Self::spec_renamed(u, old_domain, domain);
        let seed = crate::strutil::spec_replace(pre.files.file_at(pre.site_file(u)), u, u2);
        let p = pre.spec_prepared(u2, Option::Some(seed));
        p is Some && kind_ok(p.unwrap()) ==> ({
            &&& now.has_file(pre.crt_file(u2))
            &&& now.has_file(pre.site_file(u2))
            &&& now.file_at(pre.site_file(u2)) == spec_rendered(
                p.unwrap(),
                true,
                pre.spec_params(u2),
            )
        })
    }

    /// The paths the processing of a source `v` may touch: its own
    /// credential and generated files, those of its renamed hostname, and
    /// the authority's files. A source that is not usable is skipped and
    /// touches nothing.
    pub open spec fn rename_step_paths(
        self,
        v: Seq<char>,
        old_domain: Seq<char>,
        domain: Seq<char>,
        q: Seq<char>,
    ) -> bool {
        let v2 = Self::spec_renamed(v, old_domain, domain);
        &&& value_ok(v)
        &&& (q == self.site_file(v) || q == self.crt_file(v) || q == self.key_file(v) || q
            == self.csr_file(v) || q == self.ext_conf_file(v) || q == self.site_file(v2) || q
            == self.crt_file(v2) || q == self.key_file(v2) || q == self.csr_file(v2) || q
            == self.ext_conf_file(v2) || q == self.ca_pem_file() || q == self.ca_key_file() || q
            == self.trust_file())
    }

    /// Outside the paths the first `i` listed sources may touch, `now`
    /// agrees with the file table of `pre`.
    #[verifier::opaque]
    pub open spec fn untouched_outside_renames(
        pre: SiteSecure,
        now: ValetFilesystem,
        urls: Seq<String>,
        old_domain: Seq<char>,
        domain: Seq<char>,
        i: int,
    ) -> bool {
        forall|q: Seq<char>|
            (forall|k: int|
                0 <= k < i ==> !pre.rename_step_paths(
                    (#[trigger] urls[k])@,
                    old_domain,
                    domain,
                    q,
                )) ==> #[trigger] now.has_file(q) == pre.files.has_file(q) && (pre.files.has_file(
                q,
            ) ==> now.file_at(q) == pre.files.file_at(q))
    }

    /// Re-secures every secured site under the new domain: for each
    /// hostname, removes its certificate and issues one for the renamed
    /// hostname, seeding the new file from the old one with the hostname
    /// rewritten, so the recovered kind and its parameters carry over.
    /// Sites are processed independently; each failure is reported with
    /// the hostname it struck and the rest of the batch goes on. Every
    /// hostname that the rename moves away from keeps no certificate, and
    /// every cleanly renamed hostname ends secured; with no certificate
    /// directory nothing is touched.
    #[verifier::rlimit(100)]
    pub fn re_secure_for_new_domain(&mut self, old_domain: &str, domain: &str) -> (failures: Vec<
        (String, ValetError),
    >)
        requires
            old(self).wf(),
            old_domain@.len() > 0,
        ensures
            final(self).wf(),
            final(self).config == old(self).config,
            forall|u: Seq<char>|
                old(self).files.has_entry(
                    old(self).home() + "/certificates"@,
                ) && #[trigger] old(self).spec_renamed_away(u, old_domain@, domain@) ==> !final(self).files.has_file(old(self).crt_file(u)),
            // every cleanly renamed hostname ends secured, its file the
            // substituted seed's secure rendering
            forall|u: Seq<char>|
                old(self).files.has_entry(
                    old(self).home() + "/certificates"@,
                ) && #[trigger] old(self).spec_renamed_cleanly(u, old_domain@, domain@)
                    ==> Self::spec_renamed_established(
                    *old(self),
                    final(self).files,
                    u,
                    old_domain@,
                    domain@,
                ),
            // with no certificate directory nothing is touched
            !old(self).files.has_entry(old(self).home() + "/certificates"@) ==> *final(self)
                == *old(self) && failures@.len() == 0,
            forall|i: int|
                0 <= i < failures@.len() ==> (#[trigger] failures@[i]).1 is ParseFailure || (
                failures@[i]).1 is ValidationFailure,
    {
        let mut failures: Vec<(String, ValetError)> = Vec::new();
        let cert_dir = self.certificates_path(None);
        if !self.files.path_exists(cert_dir.as_str()) {
            return failures;
        }
        let urls = self.secured();
        let ghost dot_old = "."@ + old_domain@;
        let ghost dot_new = "."@ + domain@;
        let n = urls.len();
        let mut i: usize = 0;
        proof {
            reveal(SiteSecure::untouched_outside_renames);
            assert(Self::untouched_outside_renames(
                *old(self),
                self.files,
                urls@,
                old_domain@,
                domain@,
                0,
            ));
        }
        while i < n
            invariant
                self.wf(),
                old(self).wf(),
                self.config == old(self).config,
                self.ca_certificate_path == old(self).ca_certificate_path,
                self.ca_certificate_pem == old(self).ca_certificate_pem,
                self.ca_certificate_key == old(self).ca_certificate_key,
                self.ca_certificate_srl == old(self).ca_certificate_srl,
                n == urls@.len(),
                i <= n,
                old_domain@.len() > 0,
                dot_old == "."@ + old_domain@,
                dot_new == "."@ + domain@,
                forall|k: int|
                    0 <= k < n ==> old(self).files.has_file(
                        old(self).crt_file((#[trigger] urls@[k])@),
                    ) && urls@[k]@.len() > 0 && !contains_seq(urls@[k]@, "/"@),
                forall|k: int, l: int|
                    0 <= k < l < n ==> (#[trigger] urls@[k])@ != (#[trigger] urls@[l])@,
                forall|u: Seq<char>|
                    #[trigger] old(self).spec_renamed_away(u, old_domain@, domain@) && (exists|k: int|
                        0 <= k < i && (#[trigger] urls@[k])@ == u) ==> !self.files.has_file(
                        old(self).crt_file(u),
                    ),
                // processed clean renames stand established
                forall|u: Seq<char>|
                    #[trigger] old(self).spec_renamed_cleanly(u, old_domain@, domain@) && (
                    exists|k: int|
                        0 <= k < i && (#[trigger] urls@[k])@ == u)
                        ==> Self::spec_renamed_established(
                        *old(self),
                        self.files,
                        u,
                        old_domain@,
                        domain@,
                    ),
                // everything outside the processed sources' paths is
                // untouched
                Self::untouched_outside_renames(
                    *old(self),
                    self.files,
                    urls@,
                    old_domain@,
                    domain@,
                    i as int,
                ),
                forall|i2: int|
                    0 <= i2 < failures@.len() ==> (#[trigger] failures@[i2]).1 is ParseFailure
                        || (failures@[i2]).1 is ValidationFailure,
            decreases n - i,
        {
            let old_url = urls[i].as_str();
            let old_suffix = concat_str(".", old_domain);
            let new_suffix = concat_str(".", domain);
            let new_url = replace_all(old_url, old_suffix.as_str(), new_suffix.as_str());
            if Self::check_value(old_url) {
                let site_path = self.nginx_path(old_url);
                let seed: Option<String> = if self.files.is_file(site_path.as_str()) {
                    match self.files.get(site_path.as_str()) {
                        Ok(conf) => Some(
                            replace_all(conf.as_str(), old_url, new_url.as_str()),
                        ),
                        Err(_) => None,
                    }
                } else {
                    None
                };
                let ghost mid0 = *self;
                let _removed = self.unsecure(old_url, false);
                let ghost mid1 = *self;
                if Self::check_value(new_url.as_str()) {
                    let stub_arg: Option<&str> = match &seed {
                        Some(s) => Some(s.as_str()),
                        None => None,
                    };
                    match self.secure(new_url.as_str(), stub_arg) {
                        Ok(()) => {
                        },
                        Err(e) => {
                            failures.push((new_url.clone(), e));
                        },
                    }
                } else {
                    failures.push(
                        (
                            new_url.clone(),
                            ValetError::ValidationFailure(
                                "the renamed hostname is not usable".to_owned(),
                            ),
                        ),
                    );
                }
                proof {
                    assert forall|u: Seq<char>|
                        #[trigger] old(self).spec_renamed_away(u, old_domain@, domain@) && (
                        exists|k: int| 0 <= k < i + 1 && (#[trigger] urls@[k])@ == u)
                            implies !self.files.has_file(old(self).crt_file(u)) by {
                        let cu = old(self).crt_file(u);
                        // instantiate the no-rename-onto-`u` guard at this
                        // iteration's hostname
                        assert(old(self).files.has_file(old(self).crt_file(urls@[i as int]@)));
                        assert(crate::strutil::spec_replace(urls@[i as int]@, dot_old, dot_new)
                            != u);
                        assert(new_url@ != u);
                        // `u`'s certificate is absent after the removal
                        assert(!mid1.files.has_file(cu)) by {
                            mid0.lemma_crt_kinds_distinct(u, urls@[i as int]@);
                            mid0.lemma_site_cert_distinct(urls@[i as int]@, u);
                            if exists|k: int| 0 <= k < i && (#[trigger] urls@[k])@ == u {
                            } else {
                                assert(urls@[i as int]@ == u);
                            }
                        }
                        // and the re-issue for the renamed hostname cannot
                        // recreate it
                        if mid1.crt_file(u) == mid1.crt_file(new_url@) {
                            mid1.lemma_crt_injective(u, new_url@);
                        }
                        mid1.lemma_crt_kinds_distinct(u, new_url@);
                        mid1.lemma_site_cert_distinct(new_url@, u);
                        mid1.lemma_cert_ca_distinct(u);
                        assert(mid1.crt_file(u) != mid1.trust_file());
                        assert(!self.files.has_file(cu));
                    }
                }
                proof {
                    let ghost w = urls@[i as int]@;
                    let ghost w2 = Self::spec_renamed(w, old_domain@, domain@);
                    assert(old_suffix@ =~= dot_old);
                    assert(new_suffix@ =~= dot_new);
                    assert(new_url@ == w2);
                    assert(old(self).spec_rename_source(w));
                    // first, when this iteration's own rename is clean,
                    // establish its claim in small steps
                    if old(self).spec_renamed_cleanly(w, old_domain@, domain@) {
                        assert(value_ok(w2) && old(self).files.has_file(old(self).site_file(w))
                            && (old(self).spec_rename_source(w2) ==> w2 == w)) by {
                            reveal(SiteSecure::spec_renamed_cleanly);
                        }
                        assert(site_path@ == old(self).site_file(w));
                        assert forall|k: int|
                            0 <= k < i implies !old(self).rename_step_paths(
                            (#[trigger] urls@[k])@,
                            old_domain@,
                            domain@,
                            old(self).site_file(w),
                        ) by {
                            reveal(SiteSecure::spec_renamed_cleanly);
                            let v = urls@[k]@;
                            if value_ok(v) {
                                assert(old(self).spec_rename_source(v));
                                assert(v != w);
                                let v2 = Self::spec_renamed(v, old_domain@, domain@);
                                assert(v2 != w && v2 != w2);
                                old(self).lemma_rename_claim_clear(w, v);
                                old(self).lemma_rename_claim_clear(w, v2);
                            }
                        }
                        assert(mid0.files.has_file(old(self).site_file(w)) && mid0.files.file_at(
                            old(self).site_file(w),
                        ) == old(self).files.file_at(old(self).site_file(w))) by {
                            reveal(SiteSecure::untouched_outside_renames);
                        }
                        assert(Self::spec_renamed_established(
                            *old(self),
                            self.files,
                            w,
                            old_domain@,
                            domain@,
                        )) by {
                            reveal(SiteSecure::spec_renamed_established);
                            let sd = crate::strutil::spec_replace(
                                old(self).files.file_at(old(self).site_file(w)),
                                w,
                                w2,
                            );
                            let p = old(self).spec_prepared(w2, Option::Some(sd));
                            if p is Some && kind_ok(p.unwrap()) {
                                assert(mid1.spec_prepared(w2, Option::Some(sd)) == p);
                                assert(mid1.spec_params(w2) == old(self).spec_params(w2));
                                assert(self.files.has_file(old(self).crt_file(w2)));
                                assert(self.files.has_file(old(self).site_file(w2)));
                                assert(self.files.file_at(old(self).site_file(w2))
                                    == spec_rendered(
                                    p.unwrap(),
                                    true,
                                    old(self).spec_params(w2),
                                ));
                            }
                        }
                    }
                    assert forall|u: Seq<char>|
                        #[trigger] old(self).spec_renamed_cleanly(u, old_domain@, domain@) && (
                        exists|k: int|
                            0 <= k < i + 1 && (#[trigger] urls@[k])@ == u)
                            implies Self::spec_renamed_established(
                        *old(self),
                        self.files,
                        u,
                        old_domain@,
                        domain@,
                    ) by {
                        if u != w {
                            // established earlier; this iteration's two
                            // calls leave the claimed files alone
                            assert(exists|k: int| 0 <= k < i && (#[trigger] urls@[k])@ == u);
                            assert(Self::spec_renamed_established(
                                *old(self),
                                mid0.files,
                                u,
                                old_domain@,
                                domain@,
                            ));
                            let u2 = Self::spec_renamed(u, old_domain@, domain@);
                            assert(w2 != u2 && w2 != u && u2 != w && old(self).crt_file(u2)
                                != old(self).trust_file() && old(self).site_file(u2) != old(
                                self,
                            ).trust_file()) by {
                                reveal(SiteSecure::spec_renamed_cleanly);
                                if u2 == w {
                                    assert(old(self).spec_rename_source(u2));
                                }
                            }
                            let qc = old(self).crt_file(u2);
                            let qs = old(self).site_file(u2);
                            old(self).lemma_rename_claim_clear(u2, w);
                            old(self).lemma_rename_claim_clear(u2, w2);
                            assert(mid1.files.has_file(qc) == mid0.files.has_file(qc));
                            assert(mid0.files.has_file(qc) ==> mid1.files.file_at(qc)
                                == mid0.files.file_at(qc));
                            assert(mid1.files.has_file(qs) == mid0.files.has_file(qs));
                            assert(mid0.files.has_file(qs) ==> mid1.files.file_at(qs)
                                == mid0.files.file_at(qs));
                            assert(self.files.has_file(qc) == mid1.files.has_file(qc));
                            assert(mid1.files.has_file(qc) ==> self.files.file_at(qc)
                                == mid1.files.file_at(qc));
                            assert(self.files.has_file(qs) == mid1.files.has_file(qs));
                            assert(mid1.files.has_file(qs) ==> self.files.file_at(qs)
                                == mid1.files.file_at(qs));
                            assert(Self::spec_renamed_established(
                                *old(self),
                                self.files,
                                u,
                                old_domain@,
                                domain@,
                            )) by {
                                reveal(SiteSecure::spec_renamed_established);
                            }
                        }
                    }
                    assert(Self::untouched_outside_renames(
                        *old(self),
                        self.files,
                        urls@,
                        old_domain@,
                        domain@,
                        i + 1,
                    )) by {
                        reveal(SiteSecure::untouched_outside_renames);
                        assert forall|q: Seq<char>|
                            (forall|k: int|
                                0 <= k < i + 1 ==> !old(self).rename_step_paths(
                                    (#[trigger] urls@[k])@,
                                    old_domain@,
                                    domain@,
                                    q,
                                )) implies #[trigger] self.files.has_file(q) == old(
                            self,
                        ).files.has_file(q) && (old(self).files.has_file(q)
                            ==> self.files.file_at(q) == old(self).files.file_at(q)) by {
                            assert(forall|k: int|
                                0 <= k < i ==> !old(self).rename_step_paths(
                                    (#[trigger] urls@[k])@,
                                    old_domain@,
                                    domain@,
                                    q,
                                ));
                            assert(Self::untouched_outside_renames(
                                *old(self),
                                mid0.files,
                                urls@,
                                old_domain@,
                                domain@,
                                i as int,
                            ));
                            assert(mid0.files.has_file(q) == old(self).files.has_file(q));
                            assert(old(self).files.has_file(q) ==> mid0.files.file_at(q) == old(
                                self,
                            ).files.file_at(q));
                            assert(!old(self).rename_step_paths(w, old_domain@, domain@, q));
                            assert(value_ok(w));
                            assert(mid1.files.has_file(q) == mid0.files.has_file(q));
                            assert(mid0.files.has_file(q) ==> mid1.files.file_at(q)
                                == mid0.files.file_at(q));
                            assert(self.files.has_file(q) == mid1.files.has_file(q));
                            assert(mid1.files.has_file(q) ==> self.files.file_at(q)
                                == mid1.files.file_at(q));
                        }
                    }
                }
            } else {
                proof {
                    assert forall|u: Seq<char>|
                        #[trigger] old(self).spec_renamed_away(u, old_domain@, domain@) && (
                        exists|k: int| 0 <= k < i + 1 && (#[trigger] urls@[k])@ == u)
                            implies !self.files.has_file(old(self).crt_file(u)) by {
                        if urls@[i as int]@ == u {
                            assert(value_ok(u));
                            assert(false);
                        }
                    }
                    assert forall|u: Seq<char>|
                        #[trigger] old(self).spec_renamed_cleanly(u, old_domain@, domain@) && (
                        exists|k: int|
                            0 <= k < i + 1 && (#[trigger] urls@[k])@ == u)
                            implies Self::spec_renamed_established(
                        *old(self),
                        self.files,
                        u,
                        old_domain@,
                        domain@,
                    ) by {
                        reveal(SiteSecure::spec_renamed_cleanly);
                        if urls@[i as int]@ == u {
                            assert(value_ok(u));
                            assert(false);
                        }
                        assert(exists|k: int| 0 <= k < i && (#[trigger] urls@[k])@ == u);
                    }
                    assert(Self::untouched_outside_renames(
                        *old(self),
                        self.files,
                        urls@,
                        old_domain@,
                        domain@,
                        i + 1,
                    )) by {
                        reveal(SiteSecure::untouched_outside_renames);
                        assert forall|q: Seq<char>|
                            (forall|k: int|
                                0 <= k < i + 1 ==> !old(self).rename_step_paths(
                                    (#[trigger] urls@[k])@,
                                    old_domain@,
                                    domain@,
                                    q,
                                )) implies #[trigger] self.files.has_file(q) == old(
                            self,
                        ).files.has_file(q) && (old(self).files.has_file(q)
                            ==> self.files.file_at(q) == old(self).files.file_at(q)) by {
                            assert(forall|k: int|
                                0 <= k < i ==> !old(self).rename_step_paths(
                                    (#[trigger] urls@[k])@,
                                    old_domain@,
                                    domain@,
                                    q,
                                ));
                        }
                    }
                }
            }
            i += 1;
        }
        proof {
            assert forall|u: Seq<char>|
                old(self).files.has_entry(old(self).home() + "/certificates"@)
                    && #[trigger] old(self).spec_renamed_away(u, old_domain@, domain@)
                    implies !self.files.has_file(old(self).crt_file(u)) by {
                reveal_strlit("/certificates");
                reveal_strlit("/certificates/");
                reveal_strlit("/");
                reveal_strlit(".crt");
                assert(old(self).crt_file(u) =~= (old(self).home() + "/certificates"@) + "/"@ + (
                u + ".crt"@));
                assert(!contains_seq(u + ".crt"@, "/"@)) by {
                    reveal_strlit("/");
                    reveal_strlit(".crt");
                    assert(lacks_char(u, '/')) by {
                        assert forall|j: int| 0 <= j < u.len() implies u[j] != '/' by {
                            if u[j] == '/' {
                                assert(u.subrange(j, j + 1) =~= "/"@);
                                assert(crate::strutil::occurs_at(u, "/"@, j));
                            }
                        }
                    }
                    assert(lacks_char(".crt"@, '/'));
                    crate::strutil::lemma_lacks_concat(u, ".crt"@, '/');
                    crate::strutil::lemma_lacks_absent(u + ".crt"@, "/"@, 0);
                }
                assert((u + ".crt"@).len() > 0);
                assert(u + ".crt"@ != ".keep"@) by {
                    reveal_strlit(".keep");
                    reveal_strlit(".crt");
                    assert((u + ".crt"@)[(u + ".crt"@).len() - 4] == '.');
                }
                let k = choose|k: int| 0 <= k < urls@.len() && (#[trigger] urls@[k])@ == u;
            }
            assert forall|u: Seq<char>|
                old(self).files.has_entry(old(self).home() + "/certificates"@)
                    && #[trigger] old(self).spec_renamed_cleanly(u, old_domain@, domain@)
                    implies Self::spec_renamed_established(
                *old(self),
                self.files,
                u,
                old_domain@,
                domain@,
            ) by {
                reveal(SiteSecure::spec_renamed_cleanly);
                reveal_strlit("/certificates");
                reveal_strlit("/certificates/");
                reveal_strlit("/");
                reveal_strlit(".crt");
                assert(old(self).crt_file(u) =~= (old(self).home() + "/certificates"@) + "/"@ + (
                u + ".crt"@));
                assert(!contains_seq(u + ".crt"@, "/"@)) by {
                    reveal_strlit("/");
                    reveal_strlit(".crt");
                    assert(lacks_char(u, '/')) by {
                        assert forall|j: int| 0 <= j < u.len() implies u[j] != '/' by {
                            if u[j] == '/' {
                                assert(u.subrange(j, j + 1) =~= "/"@);
                                assert(crate::strutil::occurs_at(u, "/"@, j));
                            }
                        }
                    }
                    assert(lacks_char(".crt"@, '/'));
                    crate::strutil::lemma_lacks_concat(u, ".crt"@, '/');
                    crate::strutil::lemma_lacks_absent(u + ".crt"@, "/"@, 0);
                }
                assert((u + ".crt"@).len() > 0);
                assert(u + ".crt"@ != ".keep"@) by {
                    reveal_strlit(".keep");
                    reveal_strlit(".crt");
                    assert((u + ".crt"@)[(u + ".crt"@).len() - 4] == '.');
                }
                let k = choose|k: int| 0 <= k < urls@.len() && (#[trigger] urls@[k])@ == u;
            }
        }
        failures
    }

}


} // verus!
